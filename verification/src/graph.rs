//! The dependency graph that a list of modules describes, and the facts about
//! reachability, cycles and dependency orders that resolution relies on.

use vstd::prelude::*;

verus! {

/// The model of a module descriptor: every field taken by its character sequences.
#[verifier::ext_equal]
pub struct ModuleView {
    pub id: Seq<char>,
    pub domain: Seq<char>,
    pub name: Seq<char>,
    pub one_line: Seq<char>,
    pub pick_if: Seq<Seq<char>>,
    pub skip_if: Seq<Seq<char>>,
    pub requires: Seq<Seq<char>>,
    pub provides: Seq<Seq<char>>,
}

/// `i` is the position of the last module in `mods` whose id is `id`.
pub open spec fn is_last_with_id(mods: Seq<ModuleView>, id: Seq<char>, i: int) -> bool {
    &&& 0 <= i < mods.len()
    &&& mods[i].id == id
    &&& forall|j: int| i < j < mods.len() ==> mods[j].id != id
}

/// The module that a lookup of `id` finds: the last one with that id, if any.
pub open spec fn lookup(mods: Seq<ModuleView>, id: Seq<char>) -> Option<ModuleView> {
    if exists|i: int| is_last_with_id(mods, id, i) {
        Some(mods[choose|i: int| is_last_with_id(mods, id, i)])
    } else {
        None
    }
}

pub proof fn lemma_last_with_id_unique(mods: Seq<ModuleView>, id: Seq<char>, i: int)
    requires
        is_last_with_id(mods, id, i),
    ensures
        lookup(mods, id) == Some(mods[i]),
{
    let j = choose|j: int| is_last_with_id(mods, id, j);
    assert(is_last_with_id(mods, id, j));
    if j < i {
        assert(mods[i].id == id);
    } else if i < j {
        assert(mods[j].id == id);
    }
}

/// `a` declares a dependency on `b`: the module found for `a` requires `b`.
pub open spec fn edge(mods: Seq<ModuleView>, a: Seq<char>, b: Seq<char>) -> bool {
    match lookup(mods, a) {
        Some(m) => m.requires.contains(b),
        None => false,
    }
}

/// The `i`-th step of `p` follows a dependency.
pub open spec fn step(mods: Seq<ModuleView>, p: Seq<Seq<char>>, i: int) -> bool {
    edge(mods, p[i], p[i + 1])
}

/// `p` is a non-empty chain of dependencies.
pub open spec fn is_path(mods: Seq<ModuleView>, p: Seq<Seq<char>>) -> bool {
    &&& p.len() >= 1
    &&& forall|i: int| 0 <= i < p.len() - 1 ==> #[trigger] step(mods, p, i)
}

/// `p` is a dependency chain from a selected id to `x`.
pub open spec fn path_to(mods: Seq<ModuleView>, sel: Seq<Seq<char>>, p: Seq<Seq<char>>, x: Seq<char>) -> bool {
    &&& is_path(mods, p)
    &&& sel.contains(p[0])
    &&& p.last() == x
}

/// `x` is selected or is a transitive dependency of a selected id.
pub open spec fn reachable(mods: Seq<ModuleView>, sel: Seq<Seq<char>>, x: Seq<char>) -> bool {
    exists|p: Seq<Seq<char>>| #[trigger] path_to(mods, sel, p, x)
}

/// `p` is a dependency chain of at least one step that leaves `x` and returns to it.
pub open spec fn cycle_through(mods: Seq<ModuleView>, p: Seq<Seq<char>>, x: Seq<char>) -> bool {
    &&& is_path(mods, p)
    &&& p.len() >= 2
    &&& p[0] == x
    &&& p.last() == x
}

/// `x` lies on a dependency cycle.
pub open spec fn in_cycle(mods: Seq<ModuleView>, x: Seq<char>) -> bool {
    exists|p: Seq<Seq<char>>| #[trigger] cycle_through(mods, p, x)
}

/// Every id that the selection reaches names a module.
pub open spec fn closure_complete(mods: Seq<ModuleView>, sel: Seq<Seq<char>>) -> bool {
    forall|x: Seq<char>| #[trigger] reachable(mods, sel, x) ==> lookup(mods, x) is Some
}

/// No id that the selection reaches lies on a dependency cycle.
pub open spec fn closure_acyclic(mods: Seq<ModuleView>, sel: Seq<Seq<char>>) -> bool {
    forall|x: Seq<char>| #[trigger] reachable(mods, sel, x) ==> !in_cycle(mods, x)
}

/// The ids of a list of module views.
pub open spec fn view_ids(res: Seq<ModuleView>) -> Seq<Seq<char>> {
    res.map_values(|m: ModuleView| m.id)
}

/// Every dependency of an id of `ids` comes earlier in `ids`.
pub open spec fn deps_first(mods: Seq<ModuleView>, ids: Seq<Seq<char>>) -> bool {
    forall|k: int, j: int|
        0 <= k < ids.len() && 0 <= j < ids.len() && #[trigger] edge(mods, ids[k], ids[j]) ==> j < k
}

/// `res` is a resolution of `sel`: each reached module exactly once, as the
/// lookup finds it, dependencies before the modules that require them.
pub open spec fn is_resolution(mods: Seq<ModuleView>, sel: Seq<Seq<char>>, res: Seq<ModuleView>) -> bool {
    &&& view_ids(res).no_duplicates()
    &&& forall|x: Seq<char>| view_ids(res).contains(x) <==> #[trigger] reachable(mods, sel, x)
    &&& forall|k: int| 0 <= k < res.len() ==> lookup(mods, #[trigger] res[k].id) == Some(res[k])
    &&& deps_first(mods, view_ids(res))
}

pub proof fn lemma_reach_selected(mods: Seq<ModuleView>, sel: Seq<Seq<char>>, x: Seq<char>)
    requires
        sel.contains(x),
    ensures
        reachable(mods, sel, x),
{
    let p = seq![x];
    assert(path_to(mods, sel, p, x));
}

pub proof fn lemma_reach_step(mods: Seq<ModuleView>, sel: Seq<Seq<char>>, a: Seq<char>, b: Seq<char>)
    requires
        reachable(mods, sel, a),
        edge(mods, a, b),
    ensures
        reachable(mods, sel, b),
{
    let p = choose|p: Seq<Seq<char>>| path_to(mods, sel, p, a);
    let q = p.push(b);
    assert forall|i: int| 0 <= i < q.len() - 1 implies #[trigger] step(mods, q, i) by {
        if i < p.len() - 1 {
            assert(step(mods, p, i));
        }
    }
    assert(path_to(mods, sel, q, b));
}

proof fn lemma_path_in_closed(mods: Seq<ModuleView>, n: Seq<Seq<char>>, p: Seq<Seq<char>>, i: int)
    requires
        is_path(mods, p),
        n.contains(p[0]),
        forall|y: Seq<char>, d: Seq<char>| n.contains(y) && #[trigger] edge(mods, y, d) ==> n.contains(d),
        0 <= i < p.len(),
    ensures
        n.contains(p[i]),
    decreases i,
{
    if i > 0 {
        lemma_path_in_closed(mods, n, p, i - 1);
        assert(step(mods, p, i - 1));
    }
}

/// A list that holds the selection and is closed under dependencies holds every reached id.
pub proof fn lemma_closed_holds_reachable(mods: Seq<ModuleView>, sel: Seq<Seq<char>>, n: Seq<Seq<char>>, x: Seq<char>)
    requires
        forall|s: Seq<char>| sel.contains(s) ==> n.contains(s),
        forall|y: Seq<char>, d: Seq<char>| n.contains(y) && #[trigger] edge(mods, y, d) ==> n.contains(d),
        reachable(mods, sel, x),
    ensures
        n.contains(x),
{
    let p = choose|p: Seq<Seq<char>>| path_to(mods, sel, p, x);
    lemma_path_in_closed(mods, n, p, p.len() - 1);
}

/// A dependency chain ending in a module that requires `id`, and passing through `id`, closes a cycle.
pub proof fn lemma_cycle_from_chain(mods: Seq<ModuleView>, v: Seq<Seq<char>>, pos: int, id: Seq<char>)
    requires
        is_path(mods, v),
        edge(mods, v.last(), id),
        0 <= pos < v.len(),
        v[pos] == id,
    ensures
        in_cycle(mods, id),
{
    let c = v.subrange(pos, v.len() as int).push(id);
    assert forall|i: int| 0 <= i < c.len() - 1 implies #[trigger] step(mods, c, i) by {
        if i < c.len() - 2 {
            assert(step(mods, v, pos + i));
        }
    }
    assert(cycle_through(mods, c, id));
}

/// A position of `y` in `ids`.
pub open spec fn pos_of(ids: Seq<Seq<char>>, y: Seq<char>) -> int {
    choose|k: int| 0 <= k < ids.len() && ids[k] == y
}

proof fn lemma_positions_fall(mods: Seq<ModuleView>, ids: Seq<Seq<char>>, p: Seq<Seq<char>>, i: int)
    requires
        deps_first(mods, ids),
        forall|y: Seq<char>, d: Seq<char>| ids.contains(y) && #[trigger] edge(mods, y, d) ==> ids.contains(d),
        is_path(mods, p),
        ids.contains(p[0]),
        0 <= i < p.len(),
    ensures
        ids.contains(p[i]),
        0 <= pos_of(ids, p[i]) < ids.len(),
        ids[pos_of(ids, p[i])] == p[i],
        pos_of(ids, p[i]) <= pos_of(ids, p[0]) - i,
    decreases i,
{
    if i > 0 {
        lemma_positions_fall(mods, ids, p, i - 1);
        assert(step(mods, p, i - 1));
        assert(ids.contains(p[i]));
        let a = pos_of(ids, p[i - 1]);
        let b = pos_of(ids, p[i]);
        assert(edge(mods, ids[a], ids[b]));
    } else {
        let k = choose|k: int| 0 <= k < ids.len() && ids[k] == p[0];
    }
}

/// An order in which dependencies come first, and that holds the dependencies
/// of its ids, has no id on a cycle.
pub proof fn lemma_deps_first_acyclic(mods: Seq<ModuleView>, ids: Seq<Seq<char>>, x: Seq<char>)
    requires
        deps_first(mods, ids),
        forall|y: Seq<char>, d: Seq<char>| ids.contains(y) && #[trigger] edge(mods, y, d) ==> ids.contains(d),
        ids.contains(x),
    ensures
        !in_cycle(mods, x),
{
    if in_cycle(mods, x) {
        let p = choose|p: Seq<Seq<char>>| cycle_through(mods, p, x);
        lemma_positions_fall(mods, ids, p, p.len() - 1);
    }
}

/// The dependencies in `deps` that `seen` does not hold, in order.
pub open spec fn unseen_deps(deps: Seq<Seq<char>>, seen: Seq<Seq<char>>) -> Seq<Seq<char>> {
    deps.filter(|d: Seq<char>| !seen.contains(d))
}

/// The walk that gathers the ids a selection reaches, run for at most `fuel`
/// steps: each step takes the id on top of `stack`; an id already `seen` is
/// dropped; an id that names no module ends the walk, which answers it;
/// otherwise the id is seen and its unseen dependencies go on top of the stack.
/// The answer is `None` when the walk meets no missing id within `fuel` steps.
pub open spec fn walk(mods: Seq<ModuleView>, stack: Seq<Seq<char>>, seen: Seq<Seq<char>>, fuel: nat) -> Option<Seq<char>>
    decreases fuel,
{
    if fuel == 0 || stack.len() == 0 {
        None
    } else {
        let id = stack.last();
        let rest = stack.drop_last();
        if seen.contains(id) {
            walk(mods, rest, seen, (fuel - 1) as nat)
        } else {
            match lookup(mods, id) {
                None => Some(id),
                Some(m) => walk(mods, rest + unseen_deps(m.requires, seen.push(id)), seen.push(id), (fuel - 1) as nat),
            }
        }
    }
}

/// `x` is the missing id that the walk from the selection (last selected id
/// first) meets first.
pub open spec fn first_missing(mods: Seq<ModuleView>, sel: Seq<Seq<char>>, x: Seq<char>) -> bool {
    exists|fuel: nat| walk(mods, sel, Seq::empty(), fuel) == Some(x)
}

/// A resolution holds every selected id, and holds the dependencies of each
/// of its modules before that module.
pub proof fn law_resolution_covers_selection(mods: Seq<ModuleView>, sel: Seq<Seq<char>>, res: Seq<ModuleView>)
    requires
        is_resolution(mods, sel, res),
    ensures
        forall|s: Seq<char>| sel.contains(s) ==> view_ids(res).contains(s),
        forall|k: int, d: Seq<char>|
            0 <= k < res.len() && res[k].requires.contains(d) ==> exists|j: int| 0 <= j < k && #[trigger] res[j].id == d,
{
    assert forall|s: Seq<char>| sel.contains(s) implies view_ids(res).contains(s) by {
        lemma_reach_selected(mods, sel, s);
    }
    assert forall|k: int, d: Seq<char>| 0 <= k < res.len() && res[k].requires.contains(d) implies exists|j: int|
        0 <= j < k && #[trigger] res[j].id == d by {
        assert(lookup(mods, res[k].id) == Some(res[k]));
        assert(view_ids(res)[k] == res[k].id);
        assert(view_ids(res).contains(res[k].id));
        assert(reachable(mods, sel, res[k].id));
        assert(edge(mods, res[k].id, d));
        lemma_reach_step(mods, sel, res[k].id, d);
        assert(view_ids(res).contains(d));
        let j = choose|j: int| 0 <= j < view_ids(res).len() && view_ids(res)[j] == d;
        assert(edge(mods, view_ids(res)[k], view_ids(res)[j]));
        assert(res[j].id == d);
    }
}

/// A lookup finds a module exactly when some module of the list has that id.
pub proof fn law_lookup_finds_listed_ids(mods: Seq<ModuleView>, id: Seq<char>)
    ensures
        lookup(mods, id) is Some <==> exists|i: int| 0 <= i < mods.len() && mods[i].id == id,
        lookup(mods, id) matches Some(m) ==> m.id == id,
{
    if exists|i: int| 0 <= i < mods.len() && mods[i].id == id {
        let i = choose|i: int| 0 <= i < mods.len() && mods[i].id == id;
        let last = lemma_last_match(mods, id, i, mods.len() as int);
        lemma_last_with_id_unique(mods, id, last);
    }
    if lookup(mods, id) is Some {
        let j = choose|j: int| is_last_with_id(mods, id, j);
        assert(is_last_with_id(mods, id, j));
    }
}

proof fn lemma_last_match(mods: Seq<ModuleView>, id: Seq<char>, i: int, hi: int) -> (last: int)
    requires
        0 <= i < hi <= mods.len(),
        mods[i].id == id,
        forall|j: int| hi <= j < mods.len() ==> mods[j].id != id,
    ensures
        is_last_with_id(mods, id, last),
    decreases hi,
{
    if mods[hi - 1].id == id {
        hi - 1
    } else {
        lemma_last_match(mods, id, i, hi - 1)
    }
}

/// Distinct elements drawn from a list without repeats are no more than that list.
pub proof fn lemma_nodup_subset_len<T>(a: Seq<T>, b: Seq<T>)
    requires
        a.no_duplicates(),
        b.no_duplicates(),
        forall|x: T| a.contains(x) ==> b.contains(x),
    ensures
        a.len() <= b.len(),
{
    a.unique_seq_to_set();
    b.unique_seq_to_set();
    assert(a.to_set().subset_of(b.to_set()));
    vstd::set_lib::lemma_len_subset(a.to_set(), b.to_set());
}

} // verus!

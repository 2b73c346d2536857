//! Module registry for the onboarding engine.
//!
//! A [`ModuleRegistry`] holds [`ModuleShadow`] descriptors of capabilities an
//! agent can adopt.  It supports lookup by id, domain filtering and the
//! resolution of a selection into a dependency-ordered list of modules.

use vstd::prelude::*;

use crate::catalog::{superinstance_modules, superinstance_spec};
use crate::graph::{
    first_missing, unseen_deps, walk,
    closure_acyclic, closure_complete, edge, in_cycle, is_last_with_id, is_path, is_resolution,
    lemma_closed_holds_reachable, lemma_cycle_from_chain, lemma_deps_first_acyclic,
    lemma_last_with_id_unique, lemma_nodup_subset_len, lemma_reach_selected, lemma_reach_step, lookup,
    reachable, deps_first, step, view_ids, ModuleView,
};

verus! {

/// A lightweight descriptor for a module that can be selected during onboarding.
#[derive(Debug, Clone, PartialEq, Eq)]
pub struct ModuleShadow {
    /// Unique identifier (crate-style, e.g. `"spectral-graph-core"`).
    pub id: String,
    /// Domain category (e.g. `"mathematics"`, `"policy"`, `"infrastructure"`).
    pub domain: String,
    /// Human-readable module name.
    pub name: String,
    /// One-line description of what the module provides.
    pub one_line: String,
    /// Heuristic: when to suggest picking this module.
    pub pick_if: Vec<String>,
    /// Heuristic: when to suggest skipping this module.
    pub skip_if: Vec<String>,
    /// IDs of modules that must also be selected (declared dependencies).
    pub requires: Vec<String>,
    /// Capabilities this module provides.
    pub provides: Vec<String>,
}

/// The character sequences of a list of strings.
pub open spec fn str_views(v: Seq<String>) -> Seq<Seq<char>> {
    v.map_values(|s: String| s@)
}

impl View for ModuleShadow {
    type V = ModuleView;

    open spec fn view(&self) -> ModuleView {
        ModuleView {
            id: self.id@,
            domain: self.domain@,
            name: self.name@,
            one_line: self.one_line@,
            pick_if: str_views(self.pick_if@),
            skip_if: str_views(self.skip_if@),
            requires: str_views(self.requires@),
            provides: str_views(self.provides@),
        }
    }
}

/// The model of a list of modules: the views of its elements.
pub open spec fn module_views(v: Seq<ModuleShadow>) -> Seq<ModuleView> {
    v.map_values(|m: ModuleShadow| m@)
}

/// The model of a list of module references.
pub open spec fn ref_views(v: Seq<&ModuleShadow>) -> Seq<ModuleView> {
    v.map_values(|m: &ModuleShadow| m@)
}

/// `n` lists the ids of a set of modules that is closed under dependencies:
/// no id twice, each id names a module, and each dependency of a listed id is listed.
pub open spec fn closed_ids(mods: Seq<ModuleView>, n: Seq<Seq<char>>) -> bool {
    &&& n.no_duplicates()
    &&& forall|x: Seq<char>| n.contains(x) ==> lookup(mods, x) is Some
    &&& forall|y: Seq<char>, d: Seq<char>| n.contains(y) && #[trigger] edge(mods, y, d) ==> n.contains(d)
}

/// The state of the depth-first ordering over the ids `n`: `v` is the chain of
/// ids being visited, `res` the modules already placed.
pub open spec fn dfs_state(mods: Seq<ModuleView>, n: Seq<Seq<char>>, v: Seq<Seq<char>>, res: Seq<ModuleView>) -> bool {
    &&& v.no_duplicates()
    &&& forall|x: Seq<char>| v.contains(x) ==> n.contains(x)
    &&& v.len() > 0 ==> is_path(mods, v)
    &&& forall|x: Seq<char>| v.contains(x) ==> !view_ids(res).contains(x)
    &&& view_ids(res).no_duplicates()
    &&& forall|x: Seq<char>| view_ids(res).contains(x) ==> n.contains(x)
    &&& forall|k: int| 0 <= k < res.len() ==> lookup(mods, #[trigger] res[k].id) == Some(res[k])
    &&& deps_first(mods, view_ids(res))
    &&& forall|y: Seq<char>, d: Seq<char>| view_ids(res).contains(y) && #[trigger] edge(mods, y, d) ==> view_ids(res).contains(d)
}

/// The module registry: a collection of [`ModuleShadow`] entries with lookup helpers.
///
/// When several entries share an id, lookups find the last of them.
#[derive(Debug, Clone)]
pub struct ModuleRegistry {
    modules: Vec<ModuleShadow>,
}

impl View for ModuleRegistry {
    type V = Seq<ModuleView>;

    closed spec fn view(&self) -> Seq<ModuleView> {
        module_views(self.modules@)
    }
}

/// Errors produced by the registry.
#[derive(Debug)]
pub enum RegistryError {
    /// A referenced module does not exist in the registry.
    MissingModule { id: String },
    /// A dependency cycle was detected.
    CyclicDependency { id: String },
}

impl RegistryError {
    /// A human-readable description of the error.
    pub fn message(&self) -> (r: String)
        ensures
            r@ == match self {
                RegistryError::MissingModule { id } => "module not found: "@ + id@,
                RegistryError::CyclicDependency { id } => "cyclic dependency involving: "@ + id@,
            },
    {
        match self {
            RegistryError::MissingModule { id } => "module not found: ".to_owned().concat(id.as_str()),
            RegistryError::CyclicDependency { id } => "cyclic dependency involving: ".to_owned().concat(id.as_str()),
        }
    }
}

/// Whether the character sequences of `v` contain `x`.
fn contains_str(v: &Vec<String>, x: &String) -> (b: bool)
    ensures
        b == str_views(v@).contains(x@),
{
    let mut k: usize = 0;
    while k < v.len()
        invariant
            k <= v.len(),
            forall|j: int| 0 <= j < k ==> v@[j]@ != x@,
        decreases v.len() - k,
    {
        if v[k] == *x {
            assert(str_views(v@)[k as int] == x@);
            return true;
        }
        k += 1;
    }
    assert(!str_views(v@).contains(x@)) by {
        if str_views(v@).contains(x@) {
            let j = choose|j: int| 0 <= j < str_views(v@).len() && str_views(v@)[j] == x@;
            assert(v@[j]@ == x@);
        }
    }
    false
}

/// Whether the ids of the modules in `v` contain `x`.
fn contains_module_id(v: &Vec<&ModuleShadow>, x: &String) -> (b: bool)
    ensures
        b == view_ids(ref_views(v@)).contains(x@),
{
    let mut k: usize = 0;
    while k < v.len()
        invariant
            k <= v.len(),
            forall|j: int| 0 <= j < k ==> v@[j].id@ != x@,
        decreases v.len() - k,
    {
        if v[k].id == *x {
            assert(view_ids(ref_views(v@))[k as int] == x@);
            return true;
        }
        k += 1;
    }
    assert(!view_ids(ref_views(v@)).contains(x@)) by {
        if view_ids(ref_views(v@)).contains(x@) {
            let j = choose|j: int| 0 <= j < v@.len() && view_ids(ref_views(v@))[j] == x@;
            assert(v@[j].id@ == x@);
        }
    }
    false
}

/// Owned copies of the given strings, in order.
pub(crate) fn copy_strings(items: &[String]) -> (r: Vec<String>)
    ensures
        str_views(r@) == str_views(items@),
{
    let mut out: Vec<String> = Vec::new();
    let mut k: usize = 0;
    while k < items.len()
        invariant
            k <= items.len(),
            str_views(out@) == str_views(items@).take(k as int),
        decreases items.len() - k,
    {
        let s = items[k].clone();
        let ghost before = out@;
        out.push(s);
        assert(str_views(out@) =~= str_views(before).push(s@));
        assert(str_views(out@) =~= str_views(items@).take(k + 1));
        k += 1;
    }
    assert(str_views(items@).take(items.len() as int) =~= str_views(items@));
    out
}

/// A copy of a module descriptor with the same contents.
pub(crate) fn copy_module(m: &ModuleShadow) -> (r: ModuleShadow)
    ensures
        r@ == m@,
{
    ModuleShadow {
        id: m.id.clone(),
        domain: m.domain.clone(),
        name: m.name.clone(),
        one_line: m.one_line.clone(),
        pick_if: copy_strings(m.pick_if.as_slice()),
        skip_if: copy_strings(m.skip_if.as_slice()),
        requires: copy_strings(m.requires.as_slice()),
        provides: copy_strings(m.provides.as_slice()),
    }
}

/// Copies of a list of module descriptors, in order.
pub(crate) fn copy_modules(v: &Vec<ModuleShadow>) -> (r: Vec<ModuleShadow>)
    ensures
        module_views(r@) == module_views(v@),
{
    let mut out: Vec<ModuleShadow> = Vec::new();
    let mut k: usize = 0;
    while k < v.len()
        invariant
            k <= v.len(),
            module_views(out@) == module_views(v@).take(k as int),
        decreases v.len() - k,
    {
        let m = copy_module(&v[k]);
        let ghost before = out@;
        out.push(m);
        assert(module_views(out@) =~= module_views(before).push(m@));
        assert(module_views(out@) =~= module_views(v@).take(k + 1));
        k += 1;
    }
    assert(module_views(v@).take(v.len() as int) =~= module_views(v@));
    out
}

impl ModuleRegistry {
    /// Create a new registry from the given module list.
    pub fn new(modules: Vec<ModuleShadow>) -> (r: Self)
        ensures
            r@ == module_views(modules@),
    {
        ModuleRegistry { modules }
    }

    /// Return the default module registry.
    pub fn default_registry() -> (r: Self)
        ensures
            r@ == superinstance_spec(),
    {
        Self::new(superinstance_modules())
    }

    /// List all modules.
    pub fn list(&self) -> (r: &[ModuleShadow])
        ensures
            module_views(r@) == self@,
    {
        self.modules.as_slice()
    }

    /// The position of the last module whose id is `id`.
    fn find_last(&self, id: &String) -> (r: Option<usize>)
        ensures
            match r {
                Some(i) => is_last_with_id(self@, id@, i as int) && lookup(self@, id@) == Some(self@[i as int]),
                None => lookup(self@, id@) is None,
            },
    {
        let mut k: usize = self.modules.len();
        while k > 0
            invariant
                k <= self.modules.len(),
                forall|j: int| k <= j < self@.len() ==> self@[j].id != id@,
            decreases k,
        {
            k -= 1;
            if self.modules[k].id == *id {
                proof { lemma_last_with_id_unique(self@, id@, k as int); }
                return Some(k);
            }
        }
        assert(!exists|i: int| is_last_with_id(self@, id@, i));
        None
    }

    /// Look up a module by id.
    pub fn get(&self, id: &str) -> (r: Option<&ModuleShadow>)
        ensures
            match r {
                Some(m) => lookup(self@, id@) == Some(m@),
                None => lookup(self@, id@) is None,
            },
    {
        let key = id.to_owned();
        match self.find_last(&key) {
            Some(i) => Some(&self.modules[i]),
            None => None,
        }
    }

    /// The ids that the selection reaches, gathered by a depth-first walk of the
    /// declared dependencies; fails on the first id met that names no module.
    fn collect(&self, selected: &[String]) -> (r: Result<Vec<String>, RegistryError>)
        ensures
            match r {
                Ok(n) => {
                    &&& closed_ids(self@, str_views(n@))
                    &&& forall|x: Seq<char>| str_views(n@).contains(x) <==> #[trigger] reachable(self@, str_views(selected@), x)
                },
                Err(RegistryError::MissingModule { id }) => {
                    &&& reachable(self@, str_views(selected@), id@)
                    &&& lookup(self@, id@) is None
                    &&& first_missing(self@, str_views(selected@), id@)
                },
                Err(RegistryError::CyclicDependency { .. }) => false,
            },
    {
        let ghost mods = self@;
        let ghost sel = str_views(selected@);
        let mut stack = copy_strings(selected);
        let mut needed: Vec<String> = Vec::new();
        let ghost mut idx: Seq<int> = Seq::empty();
        let ghost mut steps: nat = 0;
        assert(str_views(needed@) =~= Seq::<Seq<char>>::empty());
        assert forall|x: Seq<char>| str_views(stack@).contains(x) implies reachable(mods, sel, x) by {
            lemma_reach_selected(mods, sel, x);
        }
        while stack.len() > 0
            invariant
                mods == self@,
                sel == str_views(selected@),
                str_views(needed@).no_duplicates(),
                idx.len() == needed@.len(),
                forall|k: int| 0 <= k < needed@.len() ==> #[trigger] is_last_with_id(mods, str_views(needed@)[k], idx[k]),
                forall|x: Seq<char>| str_views(needed@).contains(x) ==> lookup(mods, x) is Some,
                forall|x: Seq<char>| str_views(needed@).contains(x) ==> reachable(mods, sel, x),
                forall|x: Seq<char>| str_views(stack@).contains(x) ==> reachable(mods, sel, x),
                forall|x: Seq<char>| sel.contains(x) ==> str_views(needed@).contains(x) || str_views(stack@).contains(x),
                forall|y: Seq<char>, d: Seq<char>|
                    str_views(needed@).contains(y) && #[trigger] edge(mods, y, d) ==> str_views(needed@).contains(d)
                        || str_views(stack@).contains(d),
                forall|f: nat| walk(mods, sel, Seq::empty(), steps + f) == #[trigger] walk(mods, str_views(stack@), str_views(needed@), f),
            decreases mods.len() - needed@.len(), stack@.len(),
        {
            let ghost s_old = str_views(stack@);
            let id = stack.pop().unwrap();
            assert(s_old =~= str_views(stack@).push(id@));
            assert(s_old.contains(id@)) by { assert(s_old[s_old.len() - 1] == id@); }
            assert forall|x: Seq<char>| str_views(stack@).contains(x) implies s_old.contains(x) by {
                let k = choose|k: int| 0 <= k < str_views(stack@).len() && str_views(stack@)[k] == x;
                assert(s_old[k] == x);
            }
            let ghost n0 = str_views(needed@);
            assert(s_old.drop_last() =~= str_views(stack@));
            assert(s_old.last() == id@);
            if contains_str(&needed, &id) {
                proof {
                    assert forall|f: nat| walk(mods, sel, Seq::empty(), (steps + 1) + f) == #[trigger] walk(mods, str_views(stack@), n0, f) by {
                        assert(walk(mods, s_old, n0, f + 1) == walk(mods, str_views(stack@), n0, f));
                        assert(walk(mods, sel, Seq::empty(), steps + (f + 1)) == walk(mods, s_old, n0, f + 1));
                        assert(steps + (f + 1) == (steps + 1) + f);
                    }
                    steps = steps + 1;
                }
                continue;
            }
            match self.find_last(&id) {
                None => {
                    proof {
                        assert(walk(mods, s_old, n0, 1) == Some(id@));
                        assert(walk(mods, sel, Seq::empty(), steps + 1) == Some(id@));
                    }
                    return Err(RegistryError::MissingModule { id });
                },
                Some(i) => {
                    let ghost n_old = str_views(needed@);
                    let ghost idv = id@;
                    assert(lookup(mods, idv) is Some);
                    proof {
                        let all = Seq::new(mods.len(), |j: int| j);
                        let idx2 = idx.push(i as int);
                        assert forall|a: int, b: int| 0 <= a < idx2.len() && 0 <= b < idx2.len() && a != b
                            implies idx2[a] != idx2[b] by {
                            if a < idx.len() {
                                assert(is_last_with_id(mods, n_old[a], idx[a]));
                            }
                            if b < idx.len() {
                                assert(is_last_with_id(mods, n_old[b], idx[b]));
                            }
                            if a < idx.len() && b < idx.len() {
                                assert(n_old[a] != n_old[b]);
                            }
                        }
                        assert forall|x: int| idx2.contains(x) implies all.contains(x) by {
                            let a = choose|a: int| 0 <= a < idx2.len() && idx2[a] == x;
                            if a < idx.len() {
                                assert(is_last_with_id(mods, n_old[a], idx[a]));
                            }
                            assert(all[x] == x);
                        }
                        lemma_nodup_subset_len(idx2, all);
                        idx = idx2;
                    }
                    needed.push(id);
                    assert(str_views(needed@) =~= n_old.push(idv));
                    assert forall|x: Seq<char>| s_old.contains(x) implies str_views(stack@).contains(x) || x == idv by {
                        let k = choose|k: int| 0 <= k < s_old.len() && s_old[k] == x;
                        if k < s_old.len() - 1 {
                            assert(str_views(stack@)[k] == x);
                        }
                    }
                    assert forall|x: Seq<char>| n_old.contains(x) || x == idv implies str_views(needed@).contains(x) by {
                        if x == idv {
                            assert(str_views(needed@)[n_old.len() as int] == x);
                        } else {
                            let k = choose|k: int| 0 <= k < n_old.len() && n_old[k] == x;
                            assert(str_views(needed@)[k] == x);
                        }
                    }
                    assert forall|x: Seq<char>| str_views(needed@).contains(x) implies n_old.contains(x) || x == idv by {
                        let k = choose|k: int| 0 <= k < str_views(needed@).len() && str_views(needed@)[k] == x;
                        if k < n_old.len() {
                            assert(n_old[k] == x);
                        }
                    }
                    let m = &self.modules[i];
                    assert(m@ == mods[i as int]);
                    let ghost s_rest = str_views(stack@);
                    assert(str_views(m.requires@).take(0) =~= Seq::<Seq<char>>::empty());
                    assert(unseen_deps(Seq::<Seq<char>>::empty(), str_views(needed@)) =~= Seq::<Seq<char>>::empty());
                    assert(s_rest + Seq::<Seq<char>>::empty() =~= s_rest);
                    let mut j: usize = 0;
                    #[verifier::loop_isolation(false)]
                    while j < m.requires.len()
                        invariant
                            j <= m.requires.len(),
                            forall|x: Seq<char>| str_views(stack@).contains(x) ==> reachable(mods, sel, x),
                            forall|x: Seq<char>| sel.contains(x) ==> str_views(needed@).contains(x) || str_views(stack@).contains(x),
                            forall|y: Seq<char>, d: Seq<char>|
                                n_old.contains(y) && #[trigger] edge(mods, y, d) ==> str_views(needed@).contains(d)
                                    || str_views(stack@).contains(d),
                            forall|t: int| 0 <= t < j ==> str_views(needed@).contains(#[trigger] m.requires@[t]@)
                                || str_views(stack@).contains(m.requires@[t]@),
                            str_views(stack@) == s_rest + unseen_deps(str_views(m.requires@).take(j as int), str_views(needed@)),
                        decreases m.requires.len() - j,
                    {
                        let dep = &m.requires[j];
                        proof {
                            reveal_with_fuel(Seq::filter, 1);
                            assert(str_views(m.requires@).take(j + 1).drop_last() =~= str_views(m.requires@).take(j as int));
                            assert(str_views(m.requires@).take(j + 1).last() == dep@);
                        }
                        let ghost u0 = unseen_deps(str_views(m.requires@).take(j as int), str_views(needed@));
                        if !contains_str(&needed, dep) {
                            let ghost s_before = str_views(stack@);
                            proof {
                                assert(str_views(m.requires@)[j as int] == dep@);
                                assert(edge(mods, idv, dep@));
                                lemma_reach_step(mods, sel, idv, dep@);
                            }
                            stack.push(dep.clone());
                            assert(str_views(stack@) =~= s_before.push(dep@));
                            assert forall|x: Seq<char>| s_before.contains(x) implies str_views(stack@).contains(x) by {
                                let k = choose|k: int| 0 <= k < s_before.len() && s_before[k] == x;
                                assert(str_views(stack@)[k] == x);
                            }
                            assert(str_views(stack@)[s_before.len() as int] == dep@);
                            assert(unseen_deps(str_views(m.requires@).take(j + 1), str_views(needed@)) == u0.push(dep@));
                            assert(str_views(stack@) =~= s_rest + u0.push(dep@));
                        } else {
                            assert(unseen_deps(str_views(m.requires@).take(j + 1), str_views(needed@)) == u0);
                        }
                        j += 1;
                    }
                    proof {
                        assert(str_views(m.requires@).take(m.requires@.len() as int) =~= str_views(m.requires@));
                        assert(m@.requires == str_views(m.requires@));
                        assert(str_views(needed@) =~= n0.push(idv));
                        assert(str_views(stack@) == s_rest + unseen_deps(m@.requires, n0.push(idv)));
                        assert forall|f: nat| walk(mods, sel, Seq::empty(), (steps + 1) + f) == #[trigger] walk(mods, str_views(stack@), str_views(needed@), f) by {
                            assert(walk(mods, s_old, n0, f + 1) == walk(mods, str_views(stack@), str_views(needed@), f));
                            assert(walk(mods, sel, Seq::empty(), steps + (f + 1)) == walk(mods, s_old, n0, f + 1));
                            assert(steps + (f + 1) == (steps + 1) + f);
                        }
                        steps = steps + 1;
                    }
                    assert forall|x: Seq<char>| str_views(needed@).contains(x) implies lookup(mods, x) is Some by {
                        if x != idv {
                            assert(n_old.contains(x));
                        }
                    }
                    assert forall|y: Seq<char>, d: Seq<char>|
                        str_views(needed@).contains(y) && #[trigger] edge(mods, y, d) implies str_views(needed@).contains(d)
                            || str_views(stack@).contains(d) by {
                        if y == idv {
                            assert(lookup(mods, idv) == Some(m@));
                            let t = choose|t: int| 0 <= t < str_views(m.requires@).len() && str_views(m.requires@)[t] == d;
                            assert(m.requires@[t]@ == d);
                        } else {
                            assert(n_old.contains(y));
                        }
                    }
                },
            }
        }
        assert forall|x: Seq<char>| #[trigger] reachable(mods, sel, x) implies str_views(needed@).contains(x) by {
            lemma_closed_holds_reachable(mods, sel, str_views(needed@), x);
        }
        Ok(needed)
    }

    /// Place `id`, after all of its dependencies, at the end of `result`;
    /// `visiting` is the chain of ids whose placement is under way.
    fn visit<'a>(
        &'a self,
        id: &String,
        needed: &Vec<String>,
        visiting: &mut Vec<String>,
        result: &mut Vec<&'a ModuleShadow>,
    ) -> (r: Result<(), RegistryError>)
        requires
            closed_ids(self@, str_views(needed@)),
            str_views(needed@).contains(id@),
            dfs_state(self@, str_views(needed@), str_views(old(visiting)@), ref_views(old(result)@)),
            old(visiting)@.len() > 0 ==> edge(self@, str_views(old(visiting)@).last(), id@),
        ensures
            match r {
                Ok(()) => {
                    &&& str_views(final(visiting)@) == str_views(old(visiting)@)
                    &&& dfs_state(self@, str_views(needed@), str_views(final(visiting)@), ref_views(final(result)@))
                    &&& view_ids(ref_views(final(result)@)).contains(id@)
                    &&& forall|x: Seq<char>| view_ids(ref_views(old(result)@)).contains(x)
                        ==> view_ids(ref_views(final(result)@)).contains(x)
                },
                Err(RegistryError::CyclicDependency { id: c }) => {
                    &&& str_views(needed@).contains(c@)
                    &&& in_cycle(self@, c@)
                },
                Err(RegistryError::MissingModule { .. }) => false,
            },
        decreases needed@.len() - old(visiting)@.len(),
    {
        let ghost mods = self@;
        let ghost n = str_views(needed@);
        let ghost v0 = str_views(visiting@);
        let ghost r0 = ref_views(result@);
        if contains_module_id(result, id) {
            return Ok(());
        }
        if contains_str(visiting, id) {
            proof {
                let pos = choose|pos: int| 0 <= pos < v0.len() && v0[pos] == id@;
                lemma_cycle_from_chain(mods, v0, pos, id@);
            }
            return Err(RegistryError::CyclicDependency { id: id.clone() });
        }
        let i = match self.find_last(id) {
            Some(i) => i,
            None => {
                proof {
                    assert(false);
                }
                return Ok(());
            },
        };
        let m: &'a ModuleShadow = &self.modules[i];
        assert(m@ == mods[i as int]);
        assert(lookup(mods, id@) == Some(m@));
        visiting.push(id.clone());
        let ghost v1 = str_views(visiting@);
        assert(v1 =~= v0.push(id@));
        proof {
            assert forall|x: Seq<char>| v1.contains(x) implies v0.contains(x) || x == id@ by {
                let k = choose|k: int| 0 <= k < v1.len() && v1[k] == x;
                if k < v0.len() {
                    assert(v0[k] == x);
                }
            }
            assert(v1.no_duplicates()) by {
                assert forall|a: int, b: int| 0 <= a < v1.len() && 0 <= b < v1.len() && a != b implies v1[a] != v1[b] by {
                    if a < v0.len() && b < v0.len() {
                    } else if a < v0.len() {
                        assert(v0.contains(v1[a]));
                    } else if b < v0.len() {
                        assert(v0.contains(v1[b]));
                    }
                }
            }
            assert(is_path(mods, v1)) by {
                assert forall|t: int| 0 <= t < v1.len() - 1 implies #[trigger] step(mods, v1, t) by {
                    if t < v0.len() - 1 {
                        assert(step(mods, v0, t));
                    }
                }
            }
            lemma_nodup_subset_len(v1, n);
        }
        let mut j: usize = 0;
        while j < m.requires.len()
            invariant
                mods == self@,
                n == str_views(needed@),
                closed_ids(mods, n),
                n.contains(id@),
                lookup(mods, id@) == Some(m@),
                v1 == v0.push(id@),
                v0.len() == old(visiting)@.len(),
                visiting@.len() == v1.len(),
                v1.no_duplicates(),
                v1.len() <= n.len(),
                is_path(mods, v1),
                !v0.contains(id@),
                str_views(visiting@) == v1,
                dfs_state(mods, n, v1, ref_views(result@)),
                forall|x: Seq<char>| view_ids(r0).contains(x) ==> view_ids(ref_views(result@)).contains(x),
                j <= m.requires.len(),
                forall|t: int| 0 <= t < j ==> view_ids(ref_views(result@)).contains(#[trigger] m.requires@[t]@),
            decreases m.requires.len() - j,
        {
            let dep = &m.requires[j];
            proof {
                assert(str_views(m.requires@)[j as int] == dep@);
                assert(edge(mods, id@, dep@));
            }
            if contains_str(needed, dep) {
                match self.visit(dep, needed, visiting, result) {
                    Ok(()) => {},
                    Err(e) => {
                        return Err(e);
                    },
                }
            }
            j += 1;
        }
        let ghost r1 = ref_views(result@);
        let ghost vis_before = visiting@;
        visiting.pop();
        assert(visiting@ =~= vis_before.drop_last());
        assert(str_views(visiting@) =~= v1.drop_last());
        assert(str_views(visiting@) =~= v0);
        result.push(m);
        let ghost r2 = ref_views(result@);
        assert(r2 =~= r1.push(m@));
        assert(view_ids(r2) =~= view_ids(r1).push(id@));
        proof {
            let ids1 = view_ids(r1);
            let ids2 = view_ids(r2);
            assert(!ids1.contains(id@)) by {
                assert(v1.contains(id@)) by { assert(v1[v0.len() as int] == id@); }
            }
            assert forall|d: Seq<char>| #[trigger] edge(mods, id@, d) implies ids1.contains(d) by {
                let t = choose|t: int| 0 <= t < m@.requires.len() && m@.requires[t] == d;
                assert(m.requires@[t]@ == d);
            }
            assert forall|x: Seq<char>| ids2.contains(x) implies ids1.contains(x) || x == id@ by {
                let k = choose|k: int| 0 <= k < ids2.len() && ids2[k] == x;
                if k < ids1.len() {
                    assert(ids1[k] == x);
                }
            }
            assert forall|x: Seq<char>| ids1.contains(x) implies ids2.contains(x) by {
                let k = choose|k: int| 0 <= k < ids1.len() && ids1[k] == x;
                assert(ids2[k] == x);
            }
            assert(ids2.contains(id@)) by { assert(ids2[ids1.len() as int] == id@); }
            assert(ids2.no_duplicates()) by {
                assert forall|a: int, b: int| 0 <= a < ids2.len() && 0 <= b < ids2.len() && a != b implies ids2[a] != ids2[b] by {
                    if a < ids1.len() && b < ids1.len() {
                    } else if a < ids1.len() {
                        assert(ids1.contains(ids2[a]));
                    } else if b < ids1.len() {
                        assert(ids1.contains(ids2[b]));
                    }
                }
            }
            assert(deps_first(mods, ids2)) by {
                assert forall|k: int, j2: int| 0 <= k < ids2.len() && 0 <= j2 < ids2.len() && #[trigger] edge(mods, ids2[k], ids2[j2]) implies j2 < k by {
                    if k < ids1.len() && j2 < ids1.len() {
                        assert(edge(mods, ids1[k], ids1[j2]));
                    } else if k < ids1.len() {
                        assert(ids1.contains(ids1[k]));
                        assert(ids1.contains(id@));
                    } else if j2 == k {
                        assert(ids1.contains(id@));
                    }
                }
            }
            assert forall|x: Seq<char>| v0.contains(x) implies !ids2.contains(x) by {
                assert(v1.contains(x)) by {
                    let k = choose|k: int| 0 <= k < v0.len() && v0[k] == x;
                    assert(v1[k] == x);
                }
            }
            assert forall|y: Seq<char>, d: Seq<char>| ids2.contains(y) && #[trigger] edge(mods, y, d) implies ids2.contains(d) by {
                if y != id@ {
                    assert(ids1.contains(y));
                }
            }
            assert forall|k: int| 0 <= k < r2.len() implies lookup(mods, #[trigger] r2[k].id) == Some(r2[k]) by {
                if k < r1.len() {
                    assert(r2[k] == r1[k]);
                }
            }
        }
        Ok(())
    }

    /// Resolve the full set of modules needed to satisfy the given selection,
    /// including transitive dependencies.
    ///
    /// Returns a list in which every module comes after the modules it
    /// requires, or an error if a dependency is missing or a cycle is detected.
    pub fn resolve(&self, selected: &[String]) -> (r: Result<Vec<&ModuleShadow>, RegistryError>)
        ensures
            r is Ok <==> closure_complete(self@, str_views(selected@)) && closure_acyclic(self@, str_views(selected@)),
            match r {
                Ok(v) => is_resolution(self@, str_views(selected@), ref_views(v@)),
                Err(RegistryError::MissingModule { id }) => {
                    &&& reachable(self@, str_views(selected@), id@)
                    &&& lookup(self@, id@) is None
                    &&& first_missing(self@, str_views(selected@), id@)
                },
                Err(RegistryError::CyclicDependency { id }) => {
                    &&& closure_complete(self@, str_views(selected@))
                    &&& reachable(self@, str_views(selected@), id@)
                    &&& in_cycle(self@, id@)
                },
            },
    {
        let ghost mods = self@;
        let ghost sel = str_views(selected@);
        let needed = match self.collect(selected) {
            Ok(n) => n,
            Err(e) => {
                return Err(e);
            },
        };
        let ghost n = str_views(needed@);
        assert(closure_complete(mods, sel));
        let mut visiting: Vec<String> = Vec::new();
        let mut result: Vec<&ModuleShadow> = Vec::new();
        assert(str_views(visiting@) =~= Seq::empty());
        assert(view_ids(ref_views(result@)) =~= Seq::empty());
        let mut t: usize = 0;
        while t < needed.len()
            invariant
                mods == self@,
                sel == str_views(selected@),
                n == str_views(needed@),
                closed_ids(mods, n),
                forall|x: Seq<char>| n.contains(x) <==> #[trigger] reachable(mods, sel, x),
                closure_complete(mods, sel),
                t <= needed.len(),
                visiting@.len() == 0,
                dfs_state(mods, n, str_views(visiting@), ref_views(result@)),
                forall|s: int| 0 <= s < t ==> view_ids(ref_views(result@)).contains(#[trigger] n[s]),
            decreases needed.len() - t,
        {
            assert(n[t as int] == needed@[t as int]@);
            assert(n.contains(needed@[t as int]@));
            match self.visit(&needed[t], &needed, &mut visiting, &mut result) {
                Ok(()) => {},
                Err(e) => {
                    proof {
                        if let RegistryError::CyclicDependency { id: ref c } = e {
                            assert(reachable(mods, sel, c@));
                        }
                    }
                    return Err(e);
                },
            }
            assert(str_views(visiting@).len() == 0);
            t += 1;
        }
        let ghost ids = view_ids(ref_views(result@));
        assert forall|x: Seq<char>| ids.contains(x) <==> #[trigger] reachable(mods, sel, x) by {
            if n.contains(x) {
                let s = choose|s: int| 0 <= s < n.len() && n[s] == x;
            }
        }
        assert forall|x: Seq<char>| #[trigger] reachable(mods, sel, x) implies !in_cycle(mods, x) by {
            lemma_deps_first_acyclic(mods, ids, x);
        }
        Ok(result)
    }

    /// Filter modules by domain, keeping their order.
    pub fn by_domain(&self, domain: &str) -> (r: Vec<&ModuleShadow>)
        ensures
            module_views(r@.map_values(|m: &ModuleShadow| *m)) == self@.filter(
                |m: ModuleView| m.domain == domain@,
            ),
    {
        let key = domain.to_owned();
        let mut out: Vec<&ModuleShadow> = Vec::new();
        let mut k: usize = 0;
        while k < self.modules.len()
            invariant
                k <= self.modules.len(),
                key@ == domain@,
                module_views(out@.map_values(|m: &ModuleShadow| *m)) == self@.take(k as int).filter(
                    |m: ModuleView| m.domain == domain@,
                ),
            decreases self.modules.len() - k,
        {
            proof {
                reveal_with_fuel(Seq::filter, 1);
                assert(self@.take(k + 1).drop_last() =~= self@.take(k as int));
            }
            let ghost before = out@;
            if self.modules[k].domain == key {
                out.push(&self.modules[k]);
                assert(module_views(out@.map_values(|m: &ModuleShadow| *m)) =~= module_views(
                    before.map_values(|m: &ModuleShadow| *m),
                ).push(self@[k as int]));
            }
            k += 1;
        }
        assert(self@.take(self.modules.len() as int) =~= self@);
        out
    }
}

} // verus!

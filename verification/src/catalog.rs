//! The curated module catalogue shipped with the onboarding engine.

use vstd::prelude::*;

use crate::graph::{edge, is_last_with_id, lemma_last_with_id_unique, ModuleView};
use crate::registry::{module_views, ModuleShadow};

verus! {

/// The character sequences of a list of string slices.
pub open spec fn slice_views(v: Seq<&str>) -> Seq<Seq<char>> {
    v.map_values(|s: &str| s@)
}

/// Owned copies of a list of string slices.
fn owned_strings(items: &[&str]) -> (r: Vec<String>)
    ensures
        r@.map_values(|s: String| s@) == slice_views(items@),
{
    let mut out: Vec<String> = Vec::new();
    let mut k: usize = 0;
    while k < items.len()
        invariant
            k <= items.len(),
            out@.map_values(|s: String| s@) == slice_views(items@).take(k as int),
        decreases items.len() - k,
    {
        let item: &str = items[k];
        let s = item.to_owned();
        assert(s@ == item@);
        assert(item@ == slice_views(items@)[k as int]);
        let ghost before = out@;
        out.push(s);
        assert(out@.map_values(|s: String| s@) =~= before.map_values(|s: String| s@).push(s@));
        assert(out@.map_values(|s: String| s@) =~= slice_views(items@).take(k + 1));
        k += 1;
    }
    assert(slice_views(items@).take(items.len() as int) =~= slice_views(items@));
    out
}

fn shadow(
    id: &str,
    domain: &str,
    name: &str,
    one_line: &str,
    pick_if: &[&str],
    skip_if: &[&str],
    deps: &[&str],
    provides: &[&str],
) -> (r: ModuleShadow)
    ensures
        r@ == (ModuleView {
            id: id@,
            domain: domain@,
            name: name@,
            one_line: one_line@,
            pick_if: slice_views(pick_if@),
            skip_if: slice_views(skip_if@),
            requires: slice_views(deps@),
            provides: slice_views(provides@),
        }),
{
    ModuleShadow {
        id: id.to_owned(),
        domain: domain.to_owned(),
        name: name.to_owned(),
        one_line: one_line.to_owned(),
        pick_if: owned_strings(pick_if),
        skip_if: owned_strings(skip_if),
        requires: owned_strings(deps),
        provides: owned_strings(provides),
    }
}

/// The catalogue of modules, in the order in which it is shipped.
pub open spec fn superinstance_spec() -> Seq<ModuleView> {
    seq![
        ModuleView {
            id: "spectral-graph-core"@,
            domain: "mathematics"@,
            name: "Spectral Graph Core"@,
            one_line: "Spectral analysis and graph Laplacian computations."@,
            pick_if: seq!["graph-analysis"@, "spectral-methods"@],
            skip_if: seq!["no-graph-work"@],
            requires: seq![],
            provides: seq!["spectral-graph"@, "graph-laplacian"@],
        },
        ModuleView {
            id: "conservation-regime"@,
            domain: "policy"@,
            name: "Conservation Regime"@,
            one_line: "Conservation law enforcement and regime management."@,
            pick_if: seq!["policy-enforcement"@, "conservation"@],
            skip_if: seq![],
            requires: seq![],
            provides: seq!["conservation-laws"@, "regime-policy"@],
        },
        ModuleView {
            id: "sheaf-cohomology"@,
            domain: "mathematics"@,
            name: "Sheaf Cohomology"@,
            one_line: "Sheaf-theoretic cohomology computations for topological data."@,
            pick_if: seq!["topology"@, "cohomology"@],
            skip_if: seq!["no-abstract-math"@],
            requires: seq!["spectral-graph-core"@],
            provides: seq!["sheaf-cohomology"@],
        },
        ModuleView {
            id: "symplectic-geometry"@,
            domain: "mathematics"@,
            name: "Symplectic Geometry"@,
            one_line: "Symplectic structures and Hamiltonian mechanics primitives."@,
            pick_if: seq!["geometry"@, "hamiltonian"@],
            skip_if: seq![],
            requires: seq![],
            provides: seq!["symplectic"@, "hamiltonian"@],
        },
        ModuleView {
            id: "plato-room"@,
            domain: "infrastructure"@,
            name: "Plato Room"@,
            one_line: "Persistent reasoning room for multi-turn deliberation."@,
            pick_if: seq!["reasoning"@, "deliberation"@],
            skip_if: seq!["stateless-only"@],
            requires: seq![],
            provides: seq!["reasoning-room"@],
        },
        ModuleView {
            id: "plato-loader"@,
            domain: "infrastructure"@,
            name: "Plato Loader"@,
            one_line: "Loader and configuration manager for Plato Rooms."@,
            pick_if: seq!["reasoning"@],
            skip_if: seq![],
            requires: seq!["plato-room"@],
            provides: seq!["room-loader"@],
        },
        ModuleView {
            id: "conservation-protocol"@,
            domain: "policy"@,
            name: "Conservation Protocol"@,
            one_line: "Protocol-level conservation enforcement across modules."@,
            pick_if: seq!["conservation"@, "protocol"@],
            skip_if: seq![],
            requires: seq!["conservation-regime"@],
            provides: seq!["conservation-protocol"@],
        },
        ModuleView {
            id: "spectral-deadband"@,
            domain: "mathematics"@,
            name: "Spectral Deadband"@,
            one_line: "Deadband filtering using spectral methods for signal processing."@,
            pick_if: seq!["signal-processing"@, "deadband"@],
            skip_if: seq![],
            requires: seq!["spectral-graph-core"@],
            provides: seq!["spectral-deadband"@],
        },
        ModuleView {
            id: "tropical-algebra"@,
            domain: "mathematics"@,
            name: "Tropical Algebra"@,
            one_line: "Tropical semiring algebra for optimization and scheduling."@,
            pick_if: seq!["optimization"@, "tropical"@],
            skip_if: seq![],
            requires: seq![],
            provides: seq!["tropical-algebra"@],
        },
        ModuleView {
            id: "deadband-rs"@,
            domain: "infrastructure"@,
            name: "Deadband RS"@,
            one_line: "Rust-native deadband filtering library for signal chains."@,
            pick_if: seq!["signal-processing"@, "filtering"@],
            skip_if: seq![],
            requires: seq![],
            provides: seq!["deadband-filter"@],
        }
    ]
}

/// Return the curated list of modules shipped with the onboarding engine.
pub fn superinstance_modules() -> (r: Vec<ModuleShadow>)
    ensures
        module_views(r@) == superinstance_spec(),
{
    let mut out: Vec<ModuleShadow> = Vec::new();
    out.push(shadow(
        "spectral-graph-core",
        "mathematics",
        "Spectral Graph Core",
        "Spectral analysis and graph Laplacian computations.",
        &["graph-analysis", "spectral-methods"],
        &["no-graph-work"],
        &[],
        &["spectral-graph", "graph-laplacian"],
    ));

    out.push(shadow(
        "conservation-regime",
        "policy",
        "Conservation Regime",
        "Conservation law enforcement and regime management.",
        &["policy-enforcement", "conservation"],
        &[],
        &[],
        &["conservation-laws", "regime-policy"],
    ));
    out.push(shadow(
        "sheaf-cohomology",
        "mathematics",
        "Sheaf Cohomology",
        "Sheaf-theoretic cohomology computations for topological data.",
        &["topology", "cohomology"],
        &["no-abstract-math"],
        &["spectral-graph-core"],
        &["sheaf-cohomology"],
    ));
    out.push(shadow(
        "symplectic-geometry",
        "mathematics",
        "Symplectic Geometry",
        "Symplectic structures and Hamiltonian mechanics primitives.",
        &["geometry", "hamiltonian"],
        &[],
        &[],
        &["symplectic", "hamiltonian"],
    ));
    out.push(shadow(
        "plato-room",
        "infrastructure",
        "Plato Room",
        "Persistent reasoning room for multi-turn deliberation.",
        &["reasoning", "deliberation"],
        &["stateless-only"],
        &[],
        &["reasoning-room"],
    ));
    out.push(shadow(
        "plato-loader",
        "infrastructure",
        "Plato Loader",
        "Loader and configuration manager for Plato Rooms.",
        &["reasoning"],
        &[],
        &["plato-room"],
        &["room-loader"],
    ));
    out.push(shadow(
        "conservation-protocol",
        "policy",
        "Conservation Protocol",
        "Protocol-level conservation enforcement across modules.",
        &["conservation", "protocol"],
        &[],
        &["conservation-regime"],
        &["conservation-protocol"],
    ));
    out.push(shadow(
        "spectral-deadband",
        "mathematics",
        "Spectral Deadband",
        "Deadband filtering using spectral methods for signal processing.",
        &["signal-processing", "deadband"],
        &[],
        &["spectral-graph-core"],
        &["spectral-deadband"],
    ));
    out.push(shadow(
        "tropical-algebra",
        "mathematics",
        "Tropical Algebra",
        "Tropical semiring algebra for optimization and scheduling.",
        &["optimization", "tropical"],
        &[],
        &[],
        &["tropical-algebra"],
    ));
    out.push(shadow(
        "deadband-rs",
        "infrastructure",
        "Deadband RS",
        "Rust-native deadband filtering library for signal chains.",
        &["signal-processing", "filtering"],
        &[],
        &[],
        &["deadband-filter"],
    ));
    assert forall|i: int| 0 <= i < 10 implies #[trigger] module_views(out@)[i] =~= superinstance_spec()[i] by {}
    assert(module_views(out@) =~= superinstance_spec());
    out
}


/// The shipped catalogue's dependencies: `sheaf-cohomology` and
/// `spectral-deadband` build on `spectral-graph-core`, `plato-loader` on
/// `plato-room`, and `conservation-protocol` on `conservation-regime`; no
/// other module declares a dependency.  Ids are distinct, and every
/// dependency is a module listed earlier in the same domain, so the
/// catalogue is closed and free of cycles.  It ships ten modules in this
/// order; the spectral, sheaf, symplectic and tropical modules are
/// mathematics, the two conservation modules policy, and the Plato modules
/// and `deadband-rs` infrastructure.
pub proof fn law_catalogue_dependencies()
    ensures
        superinstance_spec().map_values(|m: ModuleView| m.id) == seq![
            "spectral-graph-core"@, "conservation-regime"@, "sheaf-cohomology"@, "symplectic-geometry"@,
            "plato-room"@, "plato-loader"@, "conservation-protocol"@, "spectral-deadband"@,
            "tropical-algebra"@, "deadband-rs"@,
        ],
        forall|i: int|
            0 <= i < superinstance_spec().len() ==> #[trigger] superinstance_spec()[i].domain == (
                if superinstance_spec()[i].id == "conservation-regime"@
                    || superinstance_spec()[i].id == "conservation-protocol"@ {
                    "policy"@
                } else if superinstance_spec()[i].id == "plato-room"@ || superinstance_spec()[i].id == "plato-loader"@
                    || superinstance_spec()[i].id == "deadband-rs"@ {
                    "infrastructure"@
                } else {
                    "mathematics"@
                }),
        forall|a: Seq<char>, b: Seq<char>|
            #[trigger] edge(superinstance_spec(), a, b) <==> (
                (a == "sheaf-cohomology"@ && b == "spectral-graph-core"@)
                || (a == "plato-loader"@ && b == "plato-room"@)
                || (a == "conservation-protocol"@ && b == "conservation-regime"@)
                || (a == "spectral-deadband"@ && b == "spectral-graph-core"@)
            ),
        forall|i: int, j: int|
            0 <= i < j < superinstance_spec().len() ==> #[trigger] superinstance_spec()[i].id
                != #[trigger] superinstance_spec()[j].id,
        forall|i: int, d: Seq<char>|
            0 <= i < superinstance_spec().len() && #[trigger] superinstance_spec()[i].requires.contains(d)
                ==> exists|j: int|
                0 <= j < i && superinstance_spec()[j].id == d && superinstance_spec()[j].domain
                    == superinstance_spec()[i].domain,
{
    let cat = superinstance_spec();
    reveal_strlit("spectral-graph-core");
    reveal_strlit("conservation-regime");
    reveal_strlit("sheaf-cohomology");
    reveal_strlit("symplectic-geometry");
    reveal_strlit("plato-room");
    reveal_strlit("plato-loader");
    reveal_strlit("conservation-protocol");
    reveal_strlit("spectral-deadband");
    reveal_strlit("tropical-algebra");
    reveal_strlit("deadband-rs");
    assert(cat.len() == 10);
    assert(cat[0].id.len() == 19 && cat[1].id.len() == 19 && cat[3].id.len() == 19);
    assert(cat[2].id.len() == 16 && cat[8].id.len() == 16);
    assert(cat[4].id.len() == 10 && cat[5].id.len() == 12 && cat[6].id.len() == 21);
    assert(cat[7].id.len() == 17 && cat[9].id.len() == 11);
    assert(cat[0].id[0] != cat[1].id[0]);
    assert(cat[1].id[0] != cat[3].id[0]);
    assert(cat[0].id[1] != cat[3].id[1]);
    assert(cat[2].id[0] != cat[8].id[0]);
    assert(cat.map_values(|m: ModuleView| m.id) =~= seq![
        "spectral-graph-core"@, "conservation-regime"@, "sheaf-cohomology"@, "symplectic-geometry"@,
        "plato-room"@, "plato-loader"@, "conservation-protocol"@, "spectral-deadband"@,
        "tropical-algebra"@, "deadband-rs"@,
    ]);
    assert forall|i: int| 0 <= i < cat.len() implies #[trigger] cat[i].domain == (
        if cat[i].id == "conservation-regime"@ || cat[i].id == "conservation-protocol"@ {
            "policy"@
        } else if cat[i].id == "plato-room"@ || cat[i].id == "plato-loader"@ || cat[i].id == "deadband-rs"@ {
            "infrastructure"@
        } else {
            "mathematics"@
        }) by {
        assert(i == 0 || i == 1 || i == 2 || i == 3 || i == 4 || i == 5 || i == 6 || i == 7 || i == 8 || i == 9);
    }
    assert forall|i: int, j: int| 0 <= i < j < cat.len() implies #[trigger] cat[i].id != #[trigger] cat[j].id by {
        assert(i == 0 || i == 1 || i == 2 || i == 3 || i == 4 || i == 5 || i == 6 || i == 7 || i == 8);
        assert(j == 1 || j == 2 || j == 3 || j == 4 || j == 5 || j == 6 || j == 7 || j == 8 || j == 9);
    }
    assert forall|i: int, d: Seq<char>| 0 <= i < cat.len() && #[trigger] cat[i].requires.contains(d) implies exists|j: int|
        0 <= j < i && cat[j].id == d && cat[j].domain == cat[i].domain by {
        assert(i == 0 || i == 1 || i == 2 || i == 3 || i == 4 || i == 5 || i == 6 || i == 7 || i == 8 || i == 9);
        if i == 2 || i == 7 {
            assert(cat[i].requires == seq!["spectral-graph-core"@]);
            assert(d == "spectral-graph-core"@);
            assert(cat[0].id == d);
        } else if i == 5 {
            assert(d == "plato-room"@);
            assert(cat[4].id == d);
        } else if i == 6 {
            assert(d == "conservation-regime"@);
            assert(cat[1].id == d);
        } else {
            assert(cat[i].requires.len() == 0);
        }
    }
    assert(is_last_with_id(cat, "sheaf-cohomology"@, 2));
    lemma_last_with_id_unique(cat, "sheaf-cohomology"@, 2);
    assert(is_last_with_id(cat, "plato-loader"@, 5));
    lemma_last_with_id_unique(cat, "plato-loader"@, 5);
    assert(is_last_with_id(cat, "conservation-protocol"@, 6));
    lemma_last_with_id_unique(cat, "conservation-protocol"@, 6);
    assert(is_last_with_id(cat, "spectral-deadband"@, 7));
    lemma_last_with_id_unique(cat, "spectral-deadband"@, 7);
    assert(cat[2].requires.contains("spectral-graph-core"@)) by { assert(cat[2].requires[0] == "spectral-graph-core"@); }
    assert(cat[7].requires.contains("spectral-graph-core"@)) by { assert(cat[7].requires[0] == "spectral-graph-core"@); }
    assert(cat[5].requires.contains("plato-room"@)) by { assert(cat[5].requires[0] == "plato-room"@); }
    assert(cat[6].requires.contains("conservation-regime"@)) by { assert(cat[6].requires[0] == "conservation-regime"@); }
    assert forall|a: Seq<char>, b: Seq<char>| #[trigger] edge(cat, a, b) implies (
        (a == "sheaf-cohomology"@ && b == "spectral-graph-core"@)
        || (a == "plato-loader"@ && b == "plato-room"@)
        || (a == "conservation-protocol"@ && b == "conservation-regime"@)
        || (a == "spectral-deadband"@ && b == "spectral-graph-core"@)
    ) by {
        let i = choose|i: int| is_last_with_id(cat, a, i);
        lemma_last_with_id_unique(cat, a, i);
        assert(cat[i].requires.contains(b));
        assert(i == 0 || i == 1 || i == 2 || i == 3 || i == 4 || i == 5 || i == 6 || i == 7 || i == 8 || i == 9);
        if i == 2 || i == 7 {
            assert(cat[i].requires == seq!["spectral-graph-core"@]);
        } else if i == 5 {
            assert(cat[i].requires == seq!["plato-room"@]);
        } else if i == 6 {
            assert(cat[i].requires == seq!["conservation-regime"@]);
        } else {
            assert(cat[i].requires.len() == 0);
        }
    }
}

} // verus!

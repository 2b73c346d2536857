# openconstruct

The onboarding engine behind the `openconstruct` command line tool, written in
Verus with its behaviour stated in contracts and proved.

## Layout

- `src/` — the verified library
  - `construct.rs` — onboarding phases and the session state machine, and the
    configuration built from a finished session
  - `graph.rs` — the mathematical model of module dependencies: lookup,
    reachability, cycles, and what a valid resolution is
  - `registry.rs` — the module registry, lookup by id and domain, and
    dependency resolution (missing modules and cycles reported exactly)
  - `catalog.rs` — the shipped catalogue of modules
  - `holonomy.rs` — Betti numbers, the Laman rigidity count, holonomy rooms
    and chains
  - `history.rs` — bounded history of recorded values
  - `config.rs` — the agent configuration file's sections and their defaults,
    the answers of the setup wizard, sense toggles, and recent tick lines
  - `scaffold.rs` — the files that make up a new sense module
  - `report.rs` — timestamps cut to the second, and publishing instructions
  - `levels.rs` — inference levels and violation severities
- `tests/` — tests run against the compiled library
- `app/` — the command line program: argument parsing, file access,
  serialisation, and the floating-point signal chain (dials, snaps,
  inferences, rooms, spline constraints)

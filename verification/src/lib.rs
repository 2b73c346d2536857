//! Onboarding engine: phases, module registry and dependency resolution,
//! agent configuration, and the discrete parts of the signal chain.

mod catalog;
mod config;
mod construct;
mod graph;
mod history;
mod holonomy;
mod levels;
mod registry;
mod report;
mod scaffold;

pub use catalog::{law_catalogue_dependencies, slice_views, superinstance_modules, superinstance_spec};
pub use graph::{
    closure_acyclic, closure_complete, first_missing, unseen_deps, walk, cycle_through, deps_first, edge, in_cycle, is_last_with_id,
    is_path, is_resolution, law_lookup_finds_listed_ids, law_resolution_covers_selection, lookup, path_to, reachable, step, view_ids, ModuleView,
};
pub use registry::{module_views, ref_views, closed_ids, dfs_state, str_views, ModuleRegistry, ModuleShadow, RegistryError};
pub use construct::{
    advance_error, following_phase, law_next_walks_phase_order, phase_order, AgentIdentity, Connection,
    IdentityView, InterfacePreferences, OnboardingConfig, OnboardingSession, Phase,
};
pub use holonomy::{
    betti_in_range, betti_of, betti_total, edges_total, emergent_of, law_chain_betti_is_euler, rigid_of,
    rooms_in_range, vertices_total, ChainView, HolonomyChain, laman_edges, laman_of, law_betti_classifies_by_threshold, law_chain_totals_add_up, law_room_betti_counts_all_tiles, law_emergence_is_laman_excess, law_emergent_rooms_are_exactly_emergent,
    law_rigid_rooms_are_exactly_rigid, law_status_follows_laman_count, law_rigid_is_laman, room_betti, room_emergent, room_in_range, status_fits,
    vertices_of, BettiResult, HolonomyRoom, HolonomyStatus, RoomView,
};
pub use report::{
    line_views, publish_lines, publish_plan, stamp_cut, stamp_cuttable, timestamp_prefix, STAMP_BYTES,
};
pub use scaffold::{
    file_views, node_manifest, rust_manifest, scaffold_files, scaffold_plan, ScaffoldFile, NODE_INDEX_TEMPLATE,
    PYTHON_INIT_TEMPLATE, RUST_LIB_TEMPLATE,
};
pub use history::{keep_last, ValueHistory, MAX_HISTORY};
pub use levels::{InferenceLevel, ViolationSeverity};
pub use config::{
    board_options, default_board, default_discovery, default_port, default_retention, default_room, default_true,
    default_version, discovery_options, init_config, recent_ticks, sense_profile, set_sense, AgentConfig,
    AgentSection, FleetSection, PlatoSection, SensesSection, TickSection,
};

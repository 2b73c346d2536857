use openconstruct::{
    default_board, default_discovery, default_port, default_retention, default_room, default_true, default_version,
    init_config, recent_ticks, sense_profile, set_sense, AgentConfig, SensesSection, ValueHistory, MAX_HISTORY,
};

#[test]
fn defaults_of_config_fields() {
    assert_eq!(default_version(), "0.1.0");
    assert!(default_true());
    assert_eq!(default_discovery(), "lan");
    assert_eq!(default_port(), 7490);
    assert_eq!(default_board(), "local");
    assert_eq!(default_retention(), "7d");
    assert_eq!(default_room(), "general");
}

#[test]
fn default_config() {
    let c = AgentConfig::default();
    assert_eq!(c.agent.name, "my-agent");
    assert_eq!(c.agent.version, "0.1.0");
    assert!(!c.senses.filesystem && !c.senses.network && !c.senses.system);
    assert_eq!(c.fleet.discovery, "lan");
    assert_eq!(c.fleet.port, 7490);
    assert_eq!(c.tick.board, "local");
    assert_eq!(c.tick.retention, "7d");
    assert_eq!(c.plato.default_room, "general");
}

#[test]
fn wizard_answers_become_config() {
    let c = init_config("bot".to_string(), 2, 1, 2);
    assert_eq!(c.agent.name, "bot");
    assert!(c.senses.filesystem && !c.senses.network && !c.senses.system);
    assert_eq!(c.fleet.discovery, "mesh");
    assert_eq!(c.fleet.port, 7490);
    assert_eq!(c.tick.board, "off");
    assert_eq!(c.tick.retention, "7d");
    assert_eq!(c.plato.default_room, "general");
    let c = init_config("bot".to_string(), 0, 2, 1);
    assert!(c.senses.network && c.senses.system);
    assert_eq!(c.fleet.discovery, "off");
    assert_eq!(c.tick.board, "remote");
    let p = sense_profile(1);
    assert!(p.filesystem && p.network && p.system);
}

#[test]
fn senses_toggle_by_name() {
    let mut s = SensesSection { filesystem: false, network: false, system: false };
    assert!(set_sense(&mut s, "network", true));
    assert!(!s.filesystem && s.network && !s.system);
    assert!(set_sense(&mut s, "network", false));
    assert!(!s.network);
    assert!(set_sense(&mut s, "system", true));
    assert!(set_sense(&mut s, "filesystem", true));
    assert!(s.filesystem && s.system);
    assert!(!set_sense(&mut s, "web", false));
    assert!(s.filesystem && !s.network && s.system);
}

#[test]
fn recent_ticks_are_the_last_ones_in_order() {
    let lines = ["a", "b", "c", "d"];
    assert_eq!(recent_ticks(&lines, 2), vec!["c", "d"]);
    assert_eq!(recent_ticks(&lines, 10), vec!["a", "b", "c", "d"]);
    assert!(recent_ticks(&lines, 0).is_empty());
}

#[test]
fn history_keeps_the_latest_values() {
    let mut h = ValueHistory::new();
    assert_eq!(h.latest(), None);
    h.push_value(5);
    assert_eq!(h.latest(), Some(5));
    let values: Vec<i32> = (0..250).collect();
    h.push_values(&values);
    assert_eq!(h.len(), MAX_HISTORY);
    assert_eq!(h.latest(), Some(249));
    for v in 1000..1010 {
        h.push_value(v);
    }
    assert_eq!(h.len(), 100);
    assert_eq!(h.latest(), Some(1009));
    let copy = h.clone();
    assert_eq!(copy.len(), h.len());
    assert_eq!(copy.latest(), Some(1009));
}

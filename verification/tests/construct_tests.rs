use openconstruct::{
    AgentIdentity, InterfacePreferences, ModuleShadow, OnboardingConfig, OnboardingSession, Phase,
};

fn sample_identity() -> AgentIdentity {
    AgentIdentity {
        name: "test-agent".into(),
        model: "test-model".into(),
        capabilities: vec!["reasoning".into()],
        tools: vec!["web-search".into()],
        constraints: vec![],
        preferences: vec!["terse-output".into()],
    }
}

#[test]
fn phase_advances_in_order() {
    let mut session = OnboardingSession::new("test".into());
    assert_eq!(session.phase, Phase::SelfDeclaration);

    session.agent_identity = Some(sample_identity());
    session.advance().unwrap();
    assert_eq!(session.phase, Phase::ModuleSelection);

    session.advance().unwrap();
    assert_eq!(session.phase, Phase::InterfaceSelection);

    session.interface_prefs = Some(InterfacePreferences {
        primary: "cli".into(),
        secondary: vec![],
        output_format: "json".into(),
        verbose: false,
    });
    session.advance().unwrap();
    assert_eq!(session.phase, Phase::ConnectionSetup);

    session.advance().unwrap();
    assert_eq!(session.phase, Phase::EnvironmentGeneration);

    assert!(session.advance().is_err());
}

#[test]
fn cannot_leave_self_declaration_without_identity() {
    let mut session = OnboardingSession::new("test".into());
    assert!(session.advance().is_err());
}

#[test]
fn build_config_from_session() {
    let mut session = OnboardingSession::new("test".into());
    session.agent_identity = Some(sample_identity());
    session.selected_modules = vec![ModuleShadow {
        id: "test-module".into(),
        domain: "test".into(),
        name: "Test".into(),
        one_line: "A test module.".into(),
        pick_if: vec![],
        skip_if: vec![],
        requires: vec![],
        provides: vec!["test".into()],
    }];

    let mut workspace = serde_json::Map::new();
    workspace.insert("workspace".to_string(), serde_json::Value::String("default".to_string()));

    let config = OnboardingConfig::from_session(
        &session,
        serde_json::Value::Object(workspace),
        vec!["no-external-access".into()],
    )
    .unwrap();

    assert_eq!(config.agent_card.name, "test-agent");
    assert_eq!(config.modules.len(), 1);
}

#[test]
fn config_keeps_session_contents() {
    let mut session = OnboardingSession::new("s".into());
    session.agent_identity = Some(sample_identity());
    let config =
        OnboardingConfig::from_session(&session, serde_json::Value::Bool(true), vec!["p".into()]).unwrap();
    assert_eq!(config.agent_card, sample_identity());
    assert_eq!(config.workspace_config, serde_json::Value::Bool(true));
    assert_eq!(config.policies, vec!["p".to_string()]);
    assert!(config.modules.is_empty());
}

#[test]
fn config_without_identity_is_refused() {
    let session = OnboardingSession::new("s".into());
    let err = OnboardingConfig::from_session(&session, serde_json::Value::Null, vec![]).unwrap_err();
    assert_eq!(err, "session missing agent identity");
}

#[test]
fn phases_listed_in_order_and_next_follows_list() {
    let all = Phase::all();
    assert_eq!(all.len(), 5);
    for i in 0..4 {
        assert_eq!(all[i].next(), Some(all[i + 1]));
    }
    assert_eq!(all[4].next(), None);
    assert_eq!(all[0], Phase::SelfDeclaration);
    assert_eq!(all[4], Phase::EnvironmentGeneration);
}

#[test]
fn advance_errors_name_the_missing_data() {
    let mut session = OnboardingSession::new("s".into());
    assert_eq!(
        session.advance().unwrap_err(),
        "agent identity must be set before leaving SelfDeclaration"
    );
    assert_eq!(session.phase, Phase::SelfDeclaration);

    session.agent_identity = Some(sample_identity());
    session.advance().unwrap();
    session.advance().unwrap();
    assert_eq!(
        session.advance().unwrap_err(),
        "interface preferences must be set before leaving InterfaceSelection"
    );
    assert_eq!(session.phase, Phase::InterfaceSelection);
}

#[test]
fn advance_from_final_phase_is_refused_and_keeps_phase() {
    let mut session = OnboardingSession::new("s".into());
    session.phase = Phase::EnvironmentGeneration;
    assert_eq!(session.advance().unwrap_err(), "already at the final phase");
    assert_eq!(session.phase, Phase::EnvironmentGeneration);
}

#[test]
fn module_selection_and_connections_are_optional() {
    let mut session = OnboardingSession::new("s".into());
    session.phase = Phase::ModuleSelection;
    assert!(session.advance().is_ok());
    session.phase = Phase::ConnectionSetup;
    assert!(session.advance().is_ok());
    assert_eq!(session.phase, Phase::EnvironmentGeneration);
    assert!(session.selected_modules.is_empty());
    assert!(session.connections.is_empty());
}

#[test]
fn duplicate_identity_is_equal() {
    let id = sample_identity();
    assert_eq!(id.duplicate(), id);
}

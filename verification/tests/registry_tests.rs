use openconstruct::{superinstance_modules, ModuleRegistry, ModuleShadow, RegistryError};

fn module(id: &str, domain: &str, requires: &[&str]) -> ModuleShadow {
    ModuleShadow {
        id: id.into(),
        domain: domain.into(),
        name: id.to_uppercase(),
        one_line: String::new(),
        pick_if: vec![],
        skip_if: vec![],
        requires: requires.iter().map(|s| s.to_string()).collect(),
        provides: vec![],
    }
}

fn position(ids: &[&str], id: &str) -> usize {
    ids.iter().position(|&x| x == id).unwrap()
}

#[test]
fn default_registry_has_ten_modules() {
    let reg = ModuleRegistry::default_registry();
    assert_eq!(reg.list().len(), 10);
}

#[test]
fn domain_filter_works() {
    let reg = ModuleRegistry::default_registry();
    let math = reg.by_domain("mathematics");
    assert!(math.len() >= 4);
}

#[test]
fn resolve_with_dependencies() {
    let reg = ModuleRegistry::default_registry();
    let resolved = reg
        .resolve(&["sheaf-cohomology".into()])
        .expect("resolution should succeed");
    let ids: Vec<&str> = resolved.iter().map(|m| m.id.as_str()).collect();
    assert!(ids.contains(&"spectral-graph-core"));
    assert!(ids.contains(&"sheaf-cohomology"));
    assert!(
        ids.iter().position(|&x| x == "spectral-graph-core").unwrap()
            < ids.iter().position(|&x| x == "sheaf-cohomology").unwrap()
    );
}

#[test]
fn resolve_missing_module_errors() {
    let reg = ModuleRegistry::default_registry();
    let result = reg.resolve(&["nonexistent".into()]);
    assert!(result.is_err());
}

#[test]
fn catalogue_lists_modules_in_shipped_order() {
    let ids: Vec<String> = superinstance_modules().into_iter().map(|m| m.id).collect();
    assert_eq!(
        ids,
        vec![
            "spectral-graph-core",
            "conservation-regime",
            "sheaf-cohomology",
            "symplectic-geometry",
            "plato-room",
            "plato-loader",
            "conservation-protocol",
            "spectral-deadband",
            "tropical-algebra",
            "deadband-rs",
        ]
    );
    let reg = ModuleRegistry::default_registry();
    let loader = reg.get("plato-loader").unwrap();
    assert_eq!(loader.requires, vec!["plato-room".to_string()]);
    assert_eq!(loader.domain, "infrastructure");
}

#[test]
fn domain_filter_keeps_order_and_only_that_domain() {
    let reg = ModuleRegistry::default_registry();
    let ids: Vec<&str> = reg.by_domain("mathematics").iter().map(|m| m.id.as_str()).collect();
    assert_eq!(
        ids,
        vec!["spectral-graph-core", "sheaf-cohomology", "symplectic-geometry", "spectral-deadband", "tropical-algebra"]
    );
    assert!(reg.by_domain("nothing").is_empty());
}

#[test]
fn get_finds_last_module_with_an_id() {
    let reg = ModuleRegistry::new(vec![module("a", "first", &[]), module("b", "x", &[]), module("a", "second", &[])]);
    assert_eq!(reg.get("a").unwrap().domain, "second");
    assert_eq!(reg.get("b").unwrap().domain, "x");
    assert!(reg.get("c").is_none());
}

#[test]
fn resolve_orders_transitive_dependencies_first() {
    let reg = ModuleRegistry::new(vec![
        module("app", "d", &["lib", "util"]),
        module("lib", "d", &["core"]),
        module("util", "d", &["core"]),
        module("core", "d", &[]),
        module("unused", "d", &[]),
    ]);
    let resolved = reg.resolve(&["app".into()]).unwrap();
    let ids: Vec<&str> = resolved.iter().map(|m| m.id.as_str()).collect();
    assert_eq!(ids.len(), 4);
    assert!(!ids.contains(&"unused"));
    assert!(position(&ids, "core") < position(&ids, "lib"));
    assert!(position(&ids, "core") < position(&ids, "util"));
    assert!(position(&ids, "lib") < position(&ids, "app"));
    assert!(position(&ids, "util") < position(&ids, "app"));
}

#[test]
fn resolve_lists_each_module_once() {
    let reg = ModuleRegistry::default_registry();
    let resolved = reg
        .resolve(&["spectral-deadband".into(), "sheaf-cohomology".into(), "spectral-deadband".into()])
        .unwrap();
    let mut ids: Vec<&str> = resolved.iter().map(|m| m.id.as_str()).collect();
    assert_eq!(ids.len(), 3);
    ids.sort();
    assert_eq!(ids, vec!["sheaf-cohomology", "spectral-deadband", "spectral-graph-core"]);
}

#[test]
fn resolve_reports_missing_dependency() {
    let reg = ModuleRegistry::new(vec![module("a", "d", &["ghost"])]);
    match reg.resolve(&["a".into()]) {
        Err(RegistryError::MissingModule { id }) => assert_eq!(id, "ghost"),
        other => panic!("unexpected: {:?}", other.map(|v| v.len())),
    }
}

#[test]
fn resolve_reports_cycle() {
    let reg = ModuleRegistry::new(vec![module("a", "d", &["b"]), module("b", "d", &["a"]), module("c", "d", &[])]);
    match reg.resolve(&["a".into()]) {
        Err(RegistryError::CyclicDependency { id }) => assert!(id == "a" || id == "b"),
        other => panic!("unexpected: {:?}", other.map(|v| v.len())),
    }
    let self_loop = ModuleRegistry::new(vec![module("s", "d", &["s"])]);
    assert!(matches!(
        self_loop.resolve(&["s".into()]),
        Err(RegistryError::CyclicDependency { .. })
    ));
    assert_eq!(reg.resolve(&["c".into()]).unwrap().len(), 1);
}

#[test]
fn resolve_of_nothing_is_empty() {
    let reg = ModuleRegistry::default_registry();
    assert!(reg.resolve(&[]).unwrap().is_empty());
}

#[test]
fn error_messages_name_the_module() {
    let missing = RegistryError::MissingModule { id: "ghost".to_string() };
    assert_eq!(missing.message(), "module not found: ghost");
    let cyclic = RegistryError::CyclicDependency { id: "a".to_string() };
    assert_eq!(cyclic.message(), "cyclic dependency involving: a");
}

#[test]
fn missing_selected_module_is_reported() {
    let reg = ModuleRegistry::new(vec![module("a", "d", &[])]);
    match reg.resolve(&["a".into(), "nowhere".into()]) {
        Err(RegistryError::MissingModule { id }) => assert_eq!(id, "nowhere"),
        other => panic!("unexpected: {:?}", other.map(|v| v.len())),
    }
}

#[test]
fn later_entry_with_same_id_wins_in_resolution() {
    let reg = ModuleRegistry::new(vec![
        module("x", "old", &["missing"]),
        module("x", "new", &[]),
    ]);
    let resolved = reg.resolve(&["x".into()]).unwrap();
    assert_eq!(resolved.len(), 1);
    assert_eq!(resolved[0].domain, "new");
}

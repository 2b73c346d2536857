use openconstruct::{scaffold_files, NODE_INDEX_TEMPLATE, PYTHON_INIT_TEMPLATE, RUST_LIB_TEMPLATE};

#[test]
fn rust_module_has_manifest_and_library() {
    let files = scaffold_files("my-sense", "rust").unwrap();
    assert_eq!(files.len(), 2);
    assert_eq!(files[0].path, "Cargo.toml");
    assert_eq!(
        files[0].contents,
        "[package]\nname = \"my-sense\"\nversion = \"0.1.0\"\nedition = \"2021\"\n\n[dependencies]\n"
    );
    assert_eq!(files[1].path, "src/lib.rs");
    assert_eq!(files[1].contents, RUST_LIB_TEMPLATE);
    assert!(RUST_LIB_TEMPLATE.starts_with("//! OpenConstruct sense module"));
}

#[test]
fn python_module_has_init_file() {
    let files = scaffold_files("p", "python").unwrap();
    assert_eq!(files.len(), 1);
    assert_eq!(files[0].path, "__init__.py");
    assert_eq!(files[0].contents, PYTHON_INIT_TEMPLATE);
    assert!(PYTHON_INIT_TEMPLATE.contains("def init() -> None:"));
}

#[test]
fn node_module_has_index_and_package() {
    let files = scaffold_files("n", "node").unwrap();
    assert_eq!(files.len(), 2);
    assert_eq!(files[0].path, "index.js");
    assert_eq!(files[0].contents, NODE_INDEX_TEMPLATE);
    assert_eq!(files[1].path, "package.json");
    assert_eq!(files[1].contents, r#"{"name": "n", "version": "0.1.0", "main": "index.js"}"#);
}

#[test]
fn unknown_language_gives_no_files() {
    assert!(scaffold_files("x", "cobol").is_none());
    assert!(scaffold_files("x", "Rust").is_none());
    assert!(scaffold_files("x", "").is_none());
}

use vstd::prelude::*;

verus! {

/// Source of `src/lib.rs` in a new Rust sense module.
pub const RUST_LIB_TEMPLATE: &'static str = r#"//! OpenConstruct sense module

/// Initialize this sense module
pub fn init() -> Result<(), Box<dyn std::error::Error>> {
    println!("Module initialized!");
    Ok(())
}

#[cfg(test)]
mod tests {
    use super::*;

    #[test]
    fn test_init() {
        assert!(init().is_ok());
    }
}
"#;

/// Source of `__init__.py` in a new Python sense module.
pub const PYTHON_INIT_TEMPLATE: &'static str = r#""""OpenConstruct sense module."""


def init() -> None:
    """Initialize this sense module."""
    print("Module initialized!")
"#;

/// Source of `index.js` in a new Node sense module.
pub const NODE_INDEX_TEMPLATE: &'static str = r#"// OpenConstruct sense module

function init() {
  console.log("Module initialized!");
}

module.exports = { init };
"#;

/// One file of a scaffolded module: its path relative to the module's
/// directory, and its contents.
#[derive(Debug, Clone)]
pub struct ScaffoldFile {
    pub path: String,
    pub contents: String,
}

impl View for ScaffoldFile {
    type V = (Seq<char>, Seq<char>);

    open spec fn view(&self) -> (Seq<char>, Seq<char>) {
        (self.path@, self.contents@)
    }
}

/// The views of a sequence of files.
pub open spec fn file_views(files: Seq<ScaffoldFile>) -> Seq<(Seq<char>, Seq<char>)> {
    files.map_values(|f: ScaffoldFile| f@)
}

/// `Cargo.toml` of a Rust sense module called `name`.
pub open spec fn rust_manifest(name: Seq<char>) -> Seq<char> {
    "[package]\nname = \""@ + name + "\"\nversion = \"0.1.0\"\nedition = \"2021\"\n\n[dependencies]\n"@
}

/// `package.json` of a Node sense module called `name`.
pub open spec fn node_manifest(name: Seq<char>) -> Seq<char> {
    "{\"name\": \""@ + name + "\", \"version\": \"0.1.0\", \"main\": \"index.js\"}"@
}

/// The files that make up a new sense module called `name` written in
/// `lang` (`rust`, `python` or `node`), in the order they are written;
/// `None` for any other language.
pub open spec fn scaffold_plan(name: Seq<char>, lang: Seq<char>) -> Option<Seq<(Seq<char>, Seq<char>)>> {
    if lang == "rust"@ {
        Some(seq![("Cargo.toml"@, rust_manifest(name)), ("src/lib.rs"@, RUST_LIB_TEMPLATE@)])
    } else if lang == "python"@ {
        Some(seq![("__init__.py"@, PYTHON_INIT_TEMPLATE@)])
    } else if lang == "node"@ {
        Some(seq![("index.js"@, NODE_INDEX_TEMPLATE@), ("package.json"@, node_manifest(name))])
    } else {
        None
    }
}

fn file(path: &str, contents: String) -> (f: ScaffoldFile)
    ensures
        f@ == (path@, contents@),
{
    ScaffoldFile { path: path.to_owned(), contents }
}

/// The files to write for a new sense module called `name` in language
/// `lang`; `None` when the language is not one of `rust`, `python`, `node`.
pub fn scaffold_files(name: &str, lang: &str) -> (r: Option<Vec<ScaffoldFile>>)
    ensures
        r is Some <==> scaffold_plan(name@, lang@) is Some,
        r matches Some(files) ==> Some(file_views(files@)) == scaffold_plan(name@, lang@),
{
    proof {
        reveal_strlit("rust");
        reveal_strlit("python");
        reveal_strlit("node");
        assert("rust"@.len() != "python"@.len());
        assert("python"@.len() != "node"@.len());
        assert("rust"@ != "node"@) by {
            assert("rust"@[0] != "node"@[0]);
        }
    }
    let key = lang.to_owned();
    if key == "rust".to_owned() {
        let manifest = "[package]\nname = \"".to_owned().concat(name).concat(
            "\"\nversion = \"0.1.0\"\nedition = \"2021\"\n\n[dependencies]\n",
        );
        let files = vec![file("Cargo.toml", manifest), file("src/lib.rs", RUST_LIB_TEMPLATE.to_owned())];
        assert(file_views(files@) =~= scaffold_plan(name@, lang@).unwrap());
        Some(files)
    } else if key == "python".to_owned() {
        let files = vec![file("__init__.py", PYTHON_INIT_TEMPLATE.to_owned())];
        assert(file_views(files@) =~= scaffold_plan(name@, lang@).unwrap());
        Some(files)
    } else if key == "node".to_owned() {
        let manifest = "{\"name\": \"".to_owned().concat(name).concat(
            "\", \"version\": \"0.1.0\", \"main\": \"index.js\"}",
        );
        let files = vec![file("index.js", NODE_INDEX_TEMPLATE.to_owned()), file("package.json", manifest)];
        assert(file_views(files@) =~= scaffold_plan(name@, lang@).unwrap());
        Some(files)
    } else {
        None
    }
}

} // verus!

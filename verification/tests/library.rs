use python_autodoc::completion::{docstring_snippet, replacement_end, snippet_text, split_lines};
use python_autodoc::dataclass::{find_toplevel_eq, index_of_char};
use python_autodoc::docgen::{docstring_from_syntax, generate_docstring_with, raise_types_from_syntax};
use python_autodoc::platform::{
    binary_after_failed_download, binary_name, extracted_binary_path, missing_binary_message,
    release_asset_name, release_url, target_triple, unsupported_platform_message, Architecture, Os,
};
use python_autodoc::render::decimal_chars;
use python_autodoc::store::DocumentStore;
use python_autodoc::syntax::parse_python_tree;
use python_autodoc::{find_definition_above, generate_docstring, python_parser};

fn lines(s: &str) -> Vec<&str> {
    s.lines().collect()
}

fn docstring_at_end(src: &str) -> String {
    let ls = lines(src);
    let cursor_line = ls.len() - 1;
    let def = find_definition_above(&ls, cursor_line).unwrap();
    generate_docstring(&def, &ls, cursor_line).unwrap()
}

fn docstring_below(src: &str, cursor_line: usize) -> String {
    let ls = lines(src);
    let def = find_definition_above(&ls, cursor_line).unwrap();
    generate_docstring(&def, &ls, cursor_line).unwrap()
}

fn chars(s: &str) -> Vec<char> {
    s.chars().collect()
}

#[test]
fn complex_signature_exact_docstring() {
    let src = "def f(a, b: int = 2, *args, **kw) -> Dict[str, int]:\n    \"\"\"\n    try:\n        raise ValueError(\"x\")\n    except os.Error:\n        raise\n";
    let doc = docstring_below(src, 1);
    assert_eq!(
        doc,
        "\n${1:Summary.}\n\nArgs:\n    a (${2:type}): ${3:Description.}\n    b (int): ${4:Description, optional (default: 2).}\n    *args (${5:type}): ${6:Description.}\n    **kw (${7:type}): ${8:Description.}\n\nReturns:\n    Dict[str, int]: ${9:Description.}\n\nRaises:\n    ValueError: ${10:Description.}\n    os.Error: ${11:Description.}"
    );
}

#[test]
fn repeated_raise_listed_once() {
    let src = "def f(x):\n    \"\"\"\n    if x:\n        raise ValueError(\"a\")\n    raise ValueError(\"b\")\n";
    let doc = docstring_below(src, 1);
    assert_eq!(doc.matches("ValueError").count(), 1);
    assert!(doc.ends_with("Raises:\n    ValueError: ${4:Description.}"));
}

#[test]
fn nested_definition_raises_not_collected() {
    let src = "def outer(x):\n    \"\"\"\n    def inner():\n        raise KeyError(\"k\")\n    raise TypeError(\"t\")\n";
    let doc = docstring_below(src, 1);
    assert!(doc.contains("TypeError: ${4:Description.}"));
    assert!(!doc.contains("KeyError"));
}

#[test]
fn no_raise_no_raises_section() {
    let doc = docstring_below("def f(x):\n    \"\"\"\n    return x\n", 1);
    assert_eq!(doc, "\n${1:Summary.}\n\nArgs:\n    x (${2:type}): ${3:Description.}");
}

#[test]
fn none_return_type_omitted() {
    let doc = docstring_at_end("def f(x: int) -> None:\n    \"\"\"");
    assert_eq!(doc, "\n${1:Summary.}\n\nArgs:\n    x (int): ${2:Description.}");
}

#[test]
fn nothing_to_document_is_summary_only() {
    assert_eq!(docstring_at_end("def f():\n    \"\"\""), "${1:Summary.}");
    assert_eq!(docstring_at_end("def f() -> None:\n    \"\"\""), "${1:Summary.}");
}

#[test]
fn return_only_has_returns_section() {
    let doc = docstring_at_end("async def f() -> bool:\n    \"\"\"");
    assert_eq!(doc, "\n${1:Summary.}\n\nReturns:\n    bool: ${2:Description.}");
}

#[test]
fn plain_class_summary_only() {
    assert_eq!(docstring_at_end("class A(Base):\n    \"\"\""), "${1:Summary.}");
    assert_eq!(docstring_at_end("@total_ordering\nclass A:\n    \"\"\""), "${1:Summary.}");
}

#[test]
fn dataclass_class_variables_skipped() {
    let src = "@dataclass\nclass P:\n    \"\"\"\n    x: int\n    y: ClassVar[int] = 0\n    w: InitVar[str]\n    z: str = \"a\"\n";
    let doc = docstring_below(src, 2);
    assert_eq!(
        doc,
        "\n${1:Summary.}\n\nAttributes:\n    x (int): ${2:Description.}\n    z (str): ${3:Description, optional (default: \"a\").}"
    );
}

#[test]
fn dataclass_without_fields_has_no_attributes() {
    let doc = docstring_at_end("@dataclass\nclass P:\n    \"\"\"");
    assert_eq!(doc, "\n${1:Summary.}");
}

#[test]
fn self_and_cls_not_documented() {
    let src = "class A:\n    def m(self, x: int):\n        \"\"\"";
    let doc = docstring_at_end(src);
    assert!(!doc.contains("self"));
    assert!(doc.contains("x (int): ${2:Description.}"));
    let src = "class A:\n    @classmethod\n    def make(cls):\n        \"\"\"";
    assert_eq!(docstring_at_end(src), "${1:Summary.}");
}

#[test]
fn snippet_indents_body_and_closes_quotes() {
    let ls = vec!["def f(x):", "    \"\"\""];
    let mut parser = python_parser().unwrap();
    let s = docstring_snippet(&mut parser, &ls, 1, 7).unwrap();
    assert_eq!(
        s,
        "\n    ${1:Summary.}\n\n    Args:\n        x (${2:type}): ${3:Description.}\n    \"\"\""
    );
}

#[test]
fn snippet_one_liner_closes_on_same_line() {
    let ls = vec!["class A:", "    \"\"\""];
    let mut parser = python_parser().unwrap();
    let s = docstring_snippet(&mut parser, &ls, 1, 7).unwrap();
    assert_eq!(s, "${1:Summary.}\"\"\"");
}

#[test]
fn snippet_needs_triple_quote_before_cursor() {
    let ls = vec!["def f(x):", "    \"\"\""];
    let mut parser = python_parser().unwrap();
    assert_eq!(docstring_snippet(&mut parser, &ls, 1, 5), None);
    assert_eq!(docstring_snippet(&mut parser, &ls, 2, 0), None);
    let ls = vec!["x = 1", "\"\"\""];
    assert_eq!(docstring_snippet(&mut parser, &ls, 1, 3), None);
}

#[test]
fn snippet_text_of_bodies() {
    assert_eq!(snippet_text(&chars("${1:Summary.}"), 4).into_iter().collect::<String>(), "${1:Summary.}\"\"\"");
    assert_eq!(
        snippet_text(&chars("\nA\n\nB"), 2).into_iter().collect::<String>(),
        "\n  A\n\n  B\n  \"\"\""
    );
}

#[test]
fn replacement_covers_paired_quotes() {
    assert_eq!(replacement_end("    \"\"\"\"\"\"", 7), 10);
    assert_eq!(replacement_end("    \"\"\"", 7), 7);
    assert_eq!(replacement_end("    \"\"\"\"\"", 7), 7);
}

#[test]
fn split_lines_like_str_lines() {
    let r: Vec<String> = split_lines(&chars("a\r\nb\n\nc\n")).into_iter().map(|l| l.into_iter().collect()).collect();
    assert_eq!(r, vec!["a", "b", "", "c"]);
    assert!(split_lines(&chars("")).is_empty());
}

#[test]
fn store_read_after_update() {
    let mut store = DocumentStore::new();
    assert_eq!(store.get("file:///a.py"), None);
    store.update("file:///a.py", "x = 1".to_string());
    store.update("file:///b.py", "y = 2".to_string());
    assert_eq!(store.get("file:///a.py"), Some("x = 1".to_string()));
    store.update("file:///a.py", "x = 3".to_string());
    assert_eq!(store.get("file:///a.py"), Some("x = 3".to_string()));
    assert_eq!(store.get("file:///b.py"), Some("y = 2".to_string()));
}

#[test]
fn store_close_forgets_only_that_document() {
    let mut store = DocumentStore::new();
    store.update("file:///a.py", "x = 1".to_string());
    store.update("file:///b.py", "y = 2".to_string());
    store.close("file:///a.py");
    assert_eq!(store.get("file:///a.py"), None);
    assert_eq!(store.get("file:///b.py"), Some("y = 2".to_string()));
    store.close("file:///missing.py");
    assert_eq!(store.get("file:///b.py"), Some("y = 2".to_string()));
}

#[test]
fn platform_binaries_and_triples() {
    assert_eq!(binary_name(Os::Windows), "python-autodoc-lsp.exe");
    assert_eq!(binary_name(Os::Linux), "python-autodoc-lsp");
    assert_eq!(binary_name(Os::Mac), "python-autodoc-lsp");
    assert_eq!(target_triple(Os::Mac, Architecture::Aarch64), Some("aarch64-apple-darwin"));
    assert_eq!(target_triple(Os::Linux, Architecture::X86), Some("i686-unknown-linux-gnu"));
    assert_eq!(target_triple(Os::Windows, Architecture::X8664), Some("x86_64-pc-windows-msvc"));
    assert_eq!(target_triple(Os::Mac, Architecture::X86), None);
    assert_eq!(unsupported_platform_message(), "python-autodoc-lsp does not support this platform");
}

#[test]
fn release_names_and_fallback() {
    assert_eq!(
        release_asset_name("x86_64-unknown-linux-gnu"),
        "python-autodoc-lsp-x86_64-unknown-linux-gnu.tar.gz"
    );
    assert_eq!(
        release_url("0.2.0", "a.tar.gz"),
        "https://github.com/eallender/zed-python-autodoc/releases/download/v0.2.0/a.tar.gz"
    );
    assert_eq!(extracted_binary_path("python-autodoc-lsp"), "python-autodoc-lsp/python-autodoc-lsp");
    let msg = missing_binary_message("404", "i686-pc-windows-msvc");
    assert_eq!(
        msg,
        "python-autodoc-lsp binary not found. Download from GitHub Releases failed (404). Build it with `cargo build --release --target i686-pc-windows-msvc` from the crates/lsp-server directory, or add python-autodoc-lsp to your PATH."
    );
    assert_eq!(
        binary_after_failed_download(Some("/usr/bin/python-autodoc-lsp".to_string()), "404", "t"),
        Ok("/usr/bin/python-autodoc-lsp".to_string())
    );
    assert_eq!(
        binary_after_failed_download(None, "404", "i686-pc-windows-msvc"),
        Err(msg)
    );
}

#[test]
fn toplevel_eq_skips_brackets() {
    assert_eq!(find_toplevel_eq(&chars("Annotated[int, Field(ge=0)] = 5")), Some(28));
    assert_eq!(find_toplevel_eq(&chars("dict = {}")), Some(5));
    assert_eq!(find_toplevel_eq(&chars("List[int]")), None);
    assert_eq!(find_toplevel_eq(&chars("é = 1")), Some(2));
    assert_eq!(index_of_char(&chars("a: b"), ':'), Some(1));
    assert_eq!(index_of_char(&chars("ab"), ':'), None);
}

#[test]
fn decimal_digits() {
    assert_eq!(decimal_chars(0).into_iter().collect::<String>(), "0");
    assert_eq!(decimal_chars(1203).into_iter().collect::<String>(), "1203");
}

#[test]
fn raise_types_from_parsed_source() {
    let mut parser = python_parser().unwrap();
    let src = "raise ValueError\nraise KeyError()\nraise ValueError(\"again\")\ntry:\n    pass\nexcept os.Error:\n    raise\n";
    let tree = parse_python_tree(&mut parser, src).unwrap();
    let types = raise_types_from_syntax(&tree, src);
    assert_eq!(types, vec!["ValueError".to_string(), "KeyError".to_string(), "os.Error".to_string()]);
}

#[test]
fn docstring_from_parsed_definition() {
    let mut parser = python_parser().unwrap();
    let src = "def g(p: str = \"é\") -> int:\n    pass";
    let tree = parse_python_tree(&mut parser, src).unwrap();
    let raises = vec!["IOError".to_string()];
    let ls: Vec<&str> = vec![];
    let doc = docstring_from_syntax(&tree, src, &raises, &ls, 0).unwrap();
    assert_eq!(
        doc,
        "\n${1:Summary.}\n\nArgs:\n    p (str): ${2:Description, optional (default: \"é\").}\n\nReturns:\n    int: ${3:Description.}\n\nRaises:\n    IOError: ${4:Description.}"
    );
    let tree = parse_python_tree(&mut parser, "x = 1").unwrap();
    assert_eq!(docstring_from_syntax(&tree, "x = 1", &raises, &ls, 0), None);
}

#[test]
fn generate_with_given_parser() {
    let mut parser = python_parser().unwrap();
    let ls = vec!["def h(*, key):", "    \"\"\""];
    let doc = generate_docstring_with(&mut parser, "def h(*, key):", &ls, 1).unwrap();
    assert_eq!(doc, "\n${1:Summary.}\n\nArgs:\n    key (${2:type}): ${3:Description.}");
}

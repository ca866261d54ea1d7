//! PEP 257 docstring bodies for Python functions and classes (without the
//! surrounding triple quotes).
use vstd::prelude::*;
use crate::dataclass::{collect_dataclass_fields_from_lines, dataclass_fields, has_dataclass_decorator, is_dataclass_decorated};
use crate::query::{child_by_field_name, child_with_field, first_def, first_def_node, kind_is};
use crate::raises::{body_raise_types, collect_raise_types, extract_raise_types, raise_walk, vviews};
use crate::render::{build_function_docstring, class_doc, class_doc_text, function_docstring};
use crate::syntax::{model, parse_python_tree, python_tree, NodeModel, SyntaxNode};
use crate::text::{append_chars, chars_of, string_of, views};
use crate::ts::{python_parser, PythonParser};

verus! {

/// The docstring of a class; `parent` is the decorated definition around it, if any.
pub open spec fn class_docstring(
    parent: Option<NodeModel>,
    src: Seq<u8>,
    lines: Seq<Seq<char>>,
    cursor: int,
) -> Seq<char> {
    let dataclass = match parent {
        Some(p) => has_dataclass_decorator(p.children, src),
        None => false,
    };
    class_doc(dataclass, dataclass_fields(lines, cursor))
}

/// The docstring for the first definition in `tree`, parsed from `src`;
/// `raises` are the exception types raised in the body.
pub open spec fn docstring_of_tree(
    tree: Option<NodeModel>,
    src: Seq<u8>,
    raises: Seq<Seq<char>>,
    lines: Seq<Seq<char>>,
    cursor: int,
) -> Option<Seq<char>> {
    match tree {
        None => None,
        Some(root) => match first_def(root) {
            None => None,
            Some(node) => if node.kind == "function_definition"@ {
                function_docstring(node, src, raises)
            } else if node.kind == "class_definition"@ {
                Some(class_docstring(None, src, lines, cursor))
            } else if node.kind == "decorated_definition"@ {
                match child_with_field(node.children, "definition"@) {
                    Some(inner) => if inner.kind == "function_definition"@ {
                        function_docstring(inner, src, raises)
                    } else if inner.kind == "class_definition"@ {
                        Some(class_docstring(Some(node), src, lines, cursor))
                    } else {
                        None
                    },
                    None => None,
                }
            } else {
                None
            },
        },
    }
}

/// The definition with a placeholder body, so that it parses as a whole statement.
pub open spec fn full_source(definition: Seq<char>) -> Seq<char> {
    definition + "\n    pass"@
}

/// What `generate_docstring` returns for a definition, the file's lines and
/// the docstring line.
pub open spec fn generated_docstring(
    definition: Seq<char>,
    lines: Seq<Seq<char>>,
    cursor: int,
) -> Option<Seq<char>> {
    let src = vstd::utf8::encode_utf8(full_source(definition));
    docstring_of_tree(python_tree(src), src, body_raise_types(lines, cursor), lines, cursor)
}

pub open spec fn string_views(v: Seq<String>) -> Seq<Seq<char>> {
    v.map_values(|s: String| s@)
}

pub open spec fn opt_string_view(o: Option<String>) -> Option<Seq<char>> {
    match o {
        Some(s) => Some(s@),
        None => None,
    }
}

/// The docstring of a class: a summary placeholder, and for a dataclass its fields.
pub fn build_class_docstring(
    src: &[u8],
    parent: Option<&SyntaxNode>,
    all_lines: &[&str],
    cursor_line: usize,
) -> (r: Vec<char>)
    ensures
        r@ == class_docstring(
            match parent {
                Some(p) => Some(model(*p)),
                None => None,
            },
            src@,
            views(all_lines@),
            cursor_line as int,
        ),
{
    let is_dataclass = match parent {
        Some(p) => is_dataclass_decorated(p, src),
        None => false,
    };
    if is_dataclass {
        let fields = collect_dataclass_fields_from_lines(all_lines, cursor_line);
        class_doc_text(true, &fields)
    } else {
        let none: Vec<crate::args::ParamDoc> = Vec::new();
        class_doc_text(false, &none)
    }
}

/// The docstring for the first definition in `tree`.
fn docstring_from_tree(
    tree: &SyntaxNode,
    src: &[u8],
    raise_types: &Vec<Vec<char>>,
    all_lines: &[&str],
    cursor_line: usize,
) -> (r: Option<Vec<char>>)
    ensures
        match r {
            Some(d) => docstring_of_tree(
                Some(model(*tree)),
                src@,
                vviews(raise_types@),
                views(all_lines@),
                cursor_line as int,
            ) == Some(d@),
            None => docstring_of_tree(
                Some(model(*tree)),
                src@,
                vviews(raise_types@),
                views(all_lines@),
                cursor_line as int,
            ) is None,
        },
{
    let node = match first_def_node(tree) {
        Some(n) => n,
        None => {
            return None;
        },
    };
    if kind_is(node, "function_definition") {
        build_function_docstring(node, src, raise_types)
    } else if kind_is(node, "class_definition") {
        Some(build_class_docstring(src, None, all_lines, cursor_line))
    } else if kind_is(node, "decorated_definition") {
        let inner = match child_by_field_name(node, "definition") {
            Some(i) => i,
            None => {
                return None;
            },
        };
        if kind_is(inner, "function_definition") {
            build_function_docstring(inner, src, raise_types)
        } else if kind_is(inner, "class_definition") {
            Some(build_class_docstring(src, Some(node), all_lines, cursor_line))
        } else {
            None
        }
    } else {
        None
    }
}

fn chars_of_strings(v: &Vec<String>) -> (r: Vec<Vec<char>>)
    ensures
        vviews(r@) == string_views(v@),
{
    let mut r: Vec<Vec<char>> = Vec::new();
    let mut i: usize = 0;
    while i < v.len()
        invariant
            0 <= i <= v@.len(),
            r@.len() == i,
            forall|k: int| 0 <= k < i ==> #[trigger] r@[k]@ == v@[k]@,
        decreases v.len() - i,
    {
        r.push(chars_of(v[i].as_str()));
        i += 1;
    }
    assert(vviews(r@) =~= string_views(v@));
    r
}

fn strings_of_chars(v: &Vec<Vec<char>>) -> (r: Vec<String>)
    ensures
        string_views(r@) == vviews(v@),
{
    let mut r: Vec<String> = Vec::new();
    let mut i: usize = 0;
    while i < v.len()
        invariant
            0 <= i <= v@.len(),
            r@.len() == i,
            forall|k: int| 0 <= k < i ==> #[trigger] r@[k]@ == v@[k]@,
        decreases v.len() - i,
    {
        r.push(string_of(v[i].as_slice()));
        i += 1;
    }
    assert(string_views(r@) =~= vviews(v@));
    r
}

/// The docstring for the first definition in a tree parsed from `source`,
/// given the exception types raised in the body.
pub fn docstring_from_syntax(
    tree: &SyntaxNode,
    source: &str,
    raise_types: &Vec<String>,
    all_lines: &[&str],
    cursor_line: usize,
) -> (r: Option<String>)
    ensures
        opt_string_view(r) == docstring_of_tree(
            Some(model(*tree)),
            vviews_bytes(source),
            string_views(raise_types@),
            views(all_lines@),
            cursor_line as int,
        ),
{
    let raises = chars_of_strings(raise_types);
    match docstring_from_tree(tree, source.as_bytes(), &raises, all_lines, cursor_line) {
        Some(d) => Some(string_of(d.as_slice())),
        None => None,
    }
}

/// The UTF-8 bytes of `s`.
pub open spec fn vviews_bytes(s: &str) -> Seq<u8> {
    vstd::utf8::encode_utf8(s@)
}

/// The exception types raised in a tree parsed from `source`, in order of
/// first appearance and without repeats.
pub fn raise_types_from_syntax(tree: &SyntaxNode, source: &str) -> (r: Vec<String>)
    ensures
        string_views(r@) == raise_walk(model(*tree), vviews_bytes(source), Seq::empty(), None),
{
    let mut types: Vec<Vec<char>> = Vec::new();
    assert(vviews(types@) =~= Seq::<Seq<char>>::empty());
    extract_raise_types(tree, source.as_bytes(), &mut types, &None);
    strings_of_chars(&types)
}

/// Parses the definition source with `parser` and generates its PEP 257
/// docstring body; `None` when the source does not parse to a definition.
pub fn generate_docstring_with(
    parser: &mut PythonParser,
    definition_source: &str,
    all_lines: &[&str],
    cursor_line: usize,
) -> (r: Option<String>)
    ensures
        opt_string_view(r) == generated_docstring(
            definition_source@,
            views(all_lines@),
            cursor_line as int,
        ),
{
    let raise_types = collect_raise_types(parser, all_lines, cursor_line);
    let mut full: Vec<char> = chars_of(definition_source);
    let tail = chars_of("\n    pass");
    append_chars(&mut full, tail.as_slice());
    let full_source = string_of(full.as_slice());
    let tree = match parse_python_tree(parser, full_source.as_str()) {
        Some(t) => t,
        None => {
            return None;
        },
    };
    match docstring_from_tree(&tree, full_source.as_str().as_bytes(), &raise_types, all_lines, cursor_line) {
        Some(d) => Some(string_of(d.as_slice())),
        None => None,
    }
}

/// Parses the definition source and generates a PEP 257 docstring body.
/// Returns `None` if the source can't be parsed to a definition.
pub fn generate_docstring(definition_source: &str, all_lines: &[&str], cursor_line: usize) -> (r:
    Option<String>)
    ensures
        opt_string_view(r) == generated_docstring(
            definition_source@,
            views(all_lines@),
            cursor_line as int,
        ),
{
    match python_parser() {
        Some(mut parser) => generate_docstring_with(&mut parser, definition_source, all_lines, cursor_line),
        None => None,
    }
}

} // verus!

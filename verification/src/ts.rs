//! The boundary to tree-sitter and its Python grammar.
//!
//! Everything here is trusted: the items marked `external_body` make one
//! tree-sitter call each, and their contracts are believed, not proved.
//!
//! A syntax tree is addressed by plain values: the UTF-8 bytes that were
//! parsed and the pre-order index of a node among the tree's nodes (the index
//! that `TreeCursor::goto_descendant` takes, 0 being the root). Parsing is
//! deterministic, so each property of a node is a function of those two
//! values, and each gets a name below. The handles `PythonTree`, `PyCursor`
//! and `PyNode` carry the source and the index as ghost state; their fields
//! are private to this module and only the functions here build them.
use vstd::prelude::*;

verus! {

#[verifier::external_type_specification]
#[verifier::external_body]
pub struct ExParser(tree_sitter::Parser);

#[verifier::external_type_specification]
#[verifier::external_body]
pub struct ExTree(tree_sitter::Tree);

#[verifier::external_type_specification]
#[verifier::external_body]
pub struct ExTreeCursor<'tree>(tree_sitter::TreeCursor<'tree>);

#[verifier::external_type_specification]
#[verifier::external_body]
pub struct ExNode<'tree>(tree_sitter::Node<'tree>);

/// Whether the Python grammar yields a tree for `source` (tree-sitter reports
/// `None` when parsing is cancelled or an external scanner fails).
pub uninterp spec fn python_parses(source: Seq<u8>) -> bool;

/// Number of nodes (named and anonymous) in the tree of `source`.
pub uninterp spec fn python_node_count(source: Seq<u8>) -> nat;

/// Grammar kind of the `index`-th node, such as `"function_definition"`.
pub uninterp spec fn python_node_kind(source: Seq<u8>, index: int) -> Seq<char>;

/// Field name under which the `index`-th node stands in its parent, if any.
pub uninterp spec fn python_node_field(source: Seq<u8>, index: int) -> Option<Seq<char>>;

/// Whether the `index`-th node is a named node.
pub uninterp spec fn python_node_named(source: Seq<u8>, index: int) -> bool;

/// Byte offset where the `index`-th node starts.
pub uninterp spec fn python_node_start(source: Seq<u8>, index: int) -> nat;

/// Byte offset where the `index`-th node ends.
pub uninterp spec fn python_node_end(source: Seq<u8>, index: int) -> nat;

/// Depth of the `index`-th node below the root (the root has depth 0).
pub uninterp spec fn python_node_depth(source: Seq<u8>, index: int) -> nat;

/// A parser with the Python grammar loaded.
pub struct PythonParser {
    parser: tree_sitter::Parser,
}

/// A tree produced by a `PythonParser`, with the bytes it was parsed from.
pub struct PythonTree {
    tree: tree_sitter::Tree,
    source: Ghost<Seq<u8>>,
}

impl PythonTree {
    pub closed spec fn source(&self) -> Seq<u8> {
        self.source@
    }
}

/// A cursor over a `PythonTree`, standing on one of its nodes.
pub struct PyCursor<'tree> {
    cursor: tree_sitter::TreeCursor<'tree>,
    source: Ghost<Seq<u8>>,
    index: Ghost<nat>,
}

impl<'tree> PyCursor<'tree> {
    pub closed spec fn source(&self) -> Seq<u8> {
        self.source@
    }

    pub closed spec fn index(&self) -> nat {
        self.index@
    }
}

/// One node of a `PythonTree`.
pub struct PyNode<'tree> {
    node: tree_sitter::Node<'tree>,
    source: Ghost<Seq<u8>>,
    index: Ghost<nat>,
}

impl<'tree> PyNode<'tree> {
    pub closed spec fn source(&self) -> Seq<u8> {
        self.source@
    }

    pub closed spec fn index(&self) -> nat {
        self.index@
    }
}

/// `Parser::new`: a parser with no language. Nothing is stated of it.
#[verifier::external_body]
fn parser_new() -> tree_sitter::Parser {
    tree_sitter::Parser::new()
}

/// `Parser::set_language` with `tree_sitter_python::LANGUAGE`. `set_language`
/// fails only for a grammar whose ABI version lies outside the range the
/// library accepts (13 to 15 here), for a grammar without a lexer, or, with
/// the `wasm` feature, when the engine refuses it. The Python grammar has ABI
/// version 15 and a lexer, and the feature is off, so the call succeeds.
#[verifier::external_body]
fn parser_set_python(parser: tree_sitter::Parser) -> (r: Option<PythonParser>)
    ensures
        r is Some,
{
    let mut parser = parser;
    match parser.set_language(&tree_sitter_python::LANGUAGE.into()) {
        Ok(()) => Some(PythonParser { parser }),
        Err(_) => None,
    }
}

/// A parser with the Python grammar loaded; the grammar always loads.
pub fn python_parser() -> (r: Option<PythonParser>)
    ensures
        r is Some,
{
    parser_set_python(parser_new())
}

/// `Parser::parse` of `text` with no earlier tree: a tree exactly when
/// `python_parses` holds of the text's UTF-8 bytes, and the tree remembers them.
#[verifier::external_body]
pub fn parse_python(parser: &mut PythonParser, text: &str) -> (r: Option<PythonTree>)
    ensures
        r is Some <==> python_parses(vstd::utf8::encode_utf8(text@)),
        r matches Some(t) ==> t.source() == vstd::utf8::encode_utf8(text@),
{
    match parser.parser.parse(text, None) {
        Some(tree) => Some(PythonTree { tree, source: Ghost(vstd::utf8::encode_utf8(text@)) }),
        None => None,
    }
}

/// `Tree::root_node`: the node with index 0.
#[verifier::external_body]
pub fn tree_root<'t>(t: &'t PythonTree) -> (n: PyNode<'t>)
    ensures
        n.source() == t.source(),
        n.index() == 0,
{
    PyNode { node: t.tree.root_node(), source: Ghost(t.source@), index: Ghost(0) }
}

/// `Tree::walk`: a cursor on the root, whose depths and descendant indices are
/// counted from the root.
#[verifier::external_body]
pub fn tree_walk<'t>(t: &'t PythonTree) -> (c: PyCursor<'t>)
    ensures
        c.source() == t.source(),
        c.index() == 0,
{
    PyCursor { cursor: t.tree.walk(), source: Ghost(t.source@), index: Ghost(0) }
}

/// `Node::descendant_count`; of the root it is the number of nodes of the tree.
/// Of any other node (the subtree's size) nothing is stated.
#[verifier::external_body]
pub fn node_descendant_count(n: &PyNode) -> (count: usize)
    ensures
        n.index() == 0 ==> count == python_node_count(n.source()),
{
    n.node.descendant_count()
}

/// `TreeCursor::goto_descendant`: moves the cursor to the node with that index.
#[verifier::external_body]
pub fn cursor_goto_descendant(c: &mut PyCursor, index: usize)
    requires
        index < python_node_count(old(c).source()),
    ensures
        final(c).source() == old(c).source(),
        final(c).index() == index,
{
    c.cursor.goto_descendant(index);
    c.index = Ghost(index as nat);
}

/// `TreeCursor::node`: the node the cursor stands on.
#[verifier::external_body]
pub fn cursor_node<'t>(c: &PyCursor<'t>) -> (n: PyNode<'t>)
    ensures
        n.source() == c.source(),
        n.index() == c.index(),
{
    PyNode { node: c.cursor.node(), source: Ghost(c.source@), index: Ghost(c.index@) }
}

/// `TreeCursor::field_name`.
#[verifier::external_body]
pub fn cursor_field_name(c: &PyCursor) -> (f: Option<String>)
    ensures
        f matches Some(s) ==> python_node_field(c.source(), c.index() as int) == Some(s@),
        f is None ==> python_node_field(c.source(), c.index() as int) is None,
{
    match c.cursor.field_name() {
        Some(s) => Some(s.to_string()),
        None => None,
    }
}

/// `TreeCursor::depth`.
#[verifier::external_body]
pub fn cursor_depth(c: &PyCursor) -> (d: u32)
    ensures
        d == python_node_depth(c.source(), c.index() as int),
{
    c.cursor.depth()
}

/// `Node::kind`.
#[verifier::external_body]
pub fn node_kind(n: &PyNode) -> (k: String)
    ensures
        k@ == python_node_kind(n.source(), n.index() as int),
{
    n.node.kind().to_string()
}

/// `Node::is_named`.
#[verifier::external_body]
pub fn node_is_named(n: &PyNode) -> (b: bool)
    ensures
        b == python_node_named(n.source(), n.index() as int),
{
    n.node.is_named()
}

/// `Node::start_byte`.
#[verifier::external_body]
pub fn node_start_byte(n: &PyNode) -> (b: usize)
    ensures
        b == python_node_start(n.source(), n.index() as int),
{
    n.node.start_byte()
}

/// `Node::end_byte`.
#[verifier::external_body]
pub fn node_end_byte(n: &PyNode) -> (b: usize)
    ensures
        b == python_node_end(n.source(), n.index() as int),
{
    n.node.end_byte()
}

/// `std::str::from_utf8`: the text whose UTF-8 bytes are `bytes`, if they are valid UTF-8.
#[verifier::external_body]
pub fn utf8_str(bytes: &[u8]) -> (r: Option<&str>)
    ensures
        r is Some <==> vstd::utf8::valid_utf8(bytes@),
        r matches Some(s) ==> vstd::utf8::encode_utf8(s@) == bytes@,
{
    std::str::from_utf8(bytes).ok()
}

} // verus!

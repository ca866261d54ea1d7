//! Syntax trees as plain data.
//!
//! tree-sitter hands out a tree node by node, in pre-order, each node with its
//! depth (`SyntaxRow`). `build_tree` rebuilds the tree (`SyntaxNode`) from that
//! listing; the docstring logic then works on `SyntaxNode` values only.
use vstd::prelude::*;
use crate::ts::{
    cursor_depth, cursor_field_name, cursor_goto_descendant, cursor_node, node_descendant_count,
    node_end_byte, node_is_named, node_kind, node_start_byte, parse_python, python_node_count,
    python_node_depth, python_node_end, python_node_field, python_node_kind, python_node_named,
    python_node_start, python_parses, tree_root, tree_walk, PythonParser, PythonTree,
};

verus! {

/// One node of a listing in pre-order: what the node is and how deep it lies.
pub struct RowModel {
    pub kind: Seq<char>,
    pub field: Option<Seq<char>>,
    pub named: bool,
    pub start: nat,
    pub end: nat,
    pub depth: nat,
}

/// One node of a pre-order listing of a syntax tree.
pub struct SyntaxRow {
    pub kind: String,
    pub field: Option<String>,
    pub named: bool,
    pub start: usize,
    pub end: usize,
    pub depth: usize,
}

pub open spec fn opt_view(o: Option<String>) -> Option<Seq<char>> {
    match o {
        Some(s) => Some(s@),
        None => None,
    }
}

impl SyntaxRow {
    pub open spec fn model(&self) -> RowModel {
        RowModel {
            kind: self.kind@,
            field: opt_view(self.field),
            named: self.named,
            start: self.start as nat,
            end: self.end as nat,
            depth: self.depth as nat,
        }
    }
}

pub open spec fn row_models(rows: Seq<SyntaxRow>) -> Seq<RowModel> {
    rows.map_values(|r: SyntaxRow| r.model())
}

/// The `index`-th node of the Python tree of `source`.
pub open spec fn python_row(source: Seq<u8>, index: int) -> RowModel {
    RowModel {
        kind: python_node_kind(source, index),
        field: python_node_field(source, index),
        named: python_node_named(source, index),
        start: python_node_start(source, index),
        end: python_node_end(source, index),
        depth: python_node_depth(source, index),
    }
}

/// The pre-order listing of the Python tree of `source`.
pub open spec fn python_rows(source: Seq<u8>) -> Seq<RowModel> {
    Seq::new(python_node_count(source), |i: int| python_row(source, i))
}

/// A syntax tree node with its children.
pub struct NodeModel {
    pub kind: Seq<char>,
    pub field: Option<Seq<char>>,
    pub named: bool,
    pub start: nat,
    pub end: nat,
    pub children: Seq<NodeModel>,
}

/// A syntax tree node: its grammar kind, the field under which it stands in
/// its parent, whether it is named, its byte range and its children in order.
pub struct SyntaxNode {
    pub kind: String,
    pub field: Option<String>,
    pub named: bool,
    pub start: usize,
    pub end: usize,
    pub children: Vec<SyntaxNode>,
}

pub open spec fn model(n: SyntaxNode) -> NodeModel
    decreases n,
{
    NodeModel {
        kind: n.kind@,
        field: opt_view(n.field),
        named: n.named,
        start: n.start as nat,
        end: n.end as nat,
        children: models(n.children@),
    }
}

pub open spec fn models(cs: Seq<SyntaxNode>) -> Seq<NodeModel>
    decreases cs,
{
    if cs.len() == 0 {
        Seq::empty()
    } else {
        models(cs.drop_last()).push(model(cs.last()))
    }
}

pub proof fn lemma_models(cs: Seq<SyntaxNode>)
    ensures
        models(cs).len() == cs.len(),
        forall|i: int| 0 <= i < cs.len() ==> #[trigger] models(cs)[i] == model(cs[i]),
    decreases cs.len(),
{
    if cs.len() > 0 {
        lemma_models(cs.drop_last());
        assert forall|i: int| 0 <= i < cs.len() implies #[trigger] models(cs)[i] == model(
            cs[i],
        ) by {
            if i < cs.len() - 1 {
                assert(models(cs.drop_last())[i] == model(cs.drop_last()[i]));
            }
        }
    }
}

pub proof fn lemma_models_push(cs: Seq<SyntaxNode>, c: SyntaxNode)
    ensures
        models(cs.push(c)) == models(cs).push(model(c)),
{
    assert(cs.push(c).drop_last() =~= cs);
}

/// A node made from a listed node and the children found for it.
pub open spec fn node_of(r: RowModel, children: Seq<NodeModel>) -> NodeModel {
    NodeModel {
        kind: r.kind,
        field: r.field,
        named: r.named,
        start: r.start,
        end: r.end,
        children,
    }
}

/// The subtree listed from `pos` on, and the position just after it.
pub open spec fn parse_node(rows: Seq<RowModel>, pos: int) -> Option<(NodeModel, int)>
    decreases rows.len() - pos, 0int,
{
    if 0 <= pos < rows.len() {
        match parse_children(rows, pos + 1, rows[pos].depth + 1, Seq::empty()) {
            Some((cs, next)) => Some((node_of(rows[pos], cs), next)),
            None => None,
        }
    } else {
        None
    }
}

/// The subtrees at `depth` listed from `pos` on, after the ones in `acc`,
/// and the position where the listing leaves that depth.
pub open spec fn parse_children(
    rows: Seq<RowModel>,
    pos: int,
    depth: nat,
    acc: Seq<NodeModel>,
) -> Option<(Seq<NodeModel>, int)>
    decreases rows.len() - pos, 1int,
{
    if pos < 0 || pos > rows.len() {
        None
    } else if pos == rows.len() || rows[pos].depth < depth {
        Some((acc, pos))
    } else if rows[pos].depth > depth {
        None
    } else {
        match parse_node(rows, pos) {
            Some((c, next)) => if pos < next <= rows.len() {
                parse_children(rows, next, depth, acc.push(c))
            } else {
                None
            },
            None => None,
        }
    }
}

/// The tree that a pre-order listing describes, if it describes one tree.
pub open spec fn parse_tree(rows: Seq<RowModel>) -> Option<NodeModel> {
    if rows.len() > 0 && rows[0].depth == 0 {
        match parse_node(rows, 0) {
            Some((t, next)) => if next == rows.len() {
                Some(t)
            } else {
                None
            },
            None => None,
        }
    } else {
        None
    }
}

/// The Python syntax tree of `source`.
pub open spec fn python_tree(source: Seq<u8>) -> Option<NodeModel> {
    if python_parses(source) {
        parse_tree(python_rows(source))
    } else {
        None
    }
}

pub open spec fn opt_model(n: Option<SyntaxNode>) -> Option<NodeModel> {
    match n {
        Some(t) => Some(model(t)),
        None => None,
    }
}

fn clone_opt(o: &Option<String>) -> (r: Option<String>)
    ensures
        opt_view(r) == opt_view(*o),
{
    match o {
        Some(s) => Some(s.clone()),
        None => None,
    }
}

/// Lists the nodes of a parsed tree in pre-order.
pub fn read_rows(t: &PythonTree) -> (rows: Vec<SyntaxRow>)
    ensures
        row_models(rows@) == python_rows(t.source()),
{
    let root = tree_root(t);
    let count = node_descendant_count(&root);
    let mut cursor = tree_walk(t);
    let mut rows: Vec<SyntaxRow> = Vec::new();
    let mut i: usize = 0;
    while i < count
        invariant
            0 <= i <= count,
            count == python_node_count(t.source()),
            cursor.source() == t.source(),
            rows@.len() == i,
            forall|j: int| 0 <= j < i ==> #[trigger] rows@[j].model() == python_row(t.source(), j),
        decreases count - i,
    {
        cursor_goto_descendant(&mut cursor, i);
        let node = cursor_node(&cursor);
        let depth = cursor_depth(&cursor);
        let row = SyntaxRow {
            kind: node_kind(&node),
            field: cursor_field_name(&cursor),
            named: node_is_named(&node),
            start: node_start_byte(&node),
            end: node_end_byte(&node),
            depth: depth as usize,
        };
        rows.push(row);
        i += 1;
    }
    assert(row_models(rows@) =~= python_rows(t.source()));
    rows
}

/// Rebuilds the subtree listed from `pos` on.
fn build_node(rows: &Vec<SyntaxRow>, pos: usize) -> (r: Option<(SyntaxNode, usize)>)
    requires
        pos < rows@.len(),
    ensures
        match r {
            Some((n, next)) => parse_node(row_models(rows@), pos as int) == Some(
                (model(n), next as int),
            ) && pos < next <= rows@.len(),
            None => parse_node(row_models(rows@), pos as int) is None,
        },
    decreases rows@.len() - pos,
{
    let ghost ms = row_models(rows@);
    let n = rows.len();
    assert(pos < n);
    let depth = rows[pos].depth;
    let mut children: Vec<SyntaxNode> = Vec::new();
    let mut p = pos + 1;
    assert(ms[pos as int] == rows@[pos as int].model());
    while p < rows.len() && rows[p].depth > depth
        invariant
            ms == row_models(rows@),
            pos < p <= rows@.len(),
            depth == rows@[pos as int].depth,
            parse_children(ms, pos + 1, (depth + 1) as nat, Seq::empty()) == parse_children(
                ms,
                p as int,
                (depth + 1) as nat,
                models(children@),
            ),
        decreases rows@.len() - p,
    {
        assert(ms[p as int] == rows@[p as int].model());
        if rows[p].depth != depth + 1 {
            return None;
        }
        match build_node(rows, p) {
            Some((c, q)) => {
                proof {
                    lemma_models_push(children@, c);
                }
                children.push(c);
                p = q;
            },
            None => {
                return None;
            },
        }
    }
    proof {
        if p < rows@.len() {
            assert(ms[p as int] == rows@[p as int].model());
        }
    }
    let row = &rows[pos];
    let node = SyntaxNode {
        kind: row.kind.clone(),
        field: clone_opt(&row.field),
        named: row.named,
        start: row.start,
        end: row.end,
        children,
    };
    Some((node, p))
}

/// The tree that a pre-order listing describes, if it describes one tree.
pub fn build_tree(rows: &Vec<SyntaxRow>) -> (r: Option<SyntaxNode>)
    ensures
        opt_model(r) == parse_tree(row_models(rows@)),
{
    let ghost ms = row_models(rows@);
    if rows.len() == 0 || rows[0].depth != 0 {
        proof {
            if rows@.len() > 0 {
                assert(ms[0] == rows@[0].model());
            }
        }
        return None;
    }
    assert(ms[0] == rows@[0].model());
    match build_node(rows, 0) {
        Some((t, next)) => if next == rows.len() {
            Some(t)
        } else {
            None
        },
        None => None,
    }
}

/// Parses `text` as Python and returns its syntax tree.
pub fn parse_python_tree(parser: &mut PythonParser, text: &str) -> (r: Option<SyntaxNode>)
    ensures
        opt_model(r) == python_tree(vstd::utf8::encode_utf8(text@)),
{
    match parse_python(parser, text) {
        Some(tree) => {
            let rows = read_rows(&tree);
            build_tree(&rows)
        },
        None => None,
    }
}

} // verus!

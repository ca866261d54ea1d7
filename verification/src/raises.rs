//! Exception types raised in a function body.
use vstd::prelude::*;
use crate::query::{
    child_by_field_name, child_with_field, first_named, is_def_kind, is_def_node, is_name_kind,
    is_name_node, kind_is, named_child0, node_text, opt_text_of, same_chars, text_of,
};
use crate::syntax::{lemma_models, model, models, parse_python_tree, python_tree, NodeModel, SyntaxNode};
use crate::text::{
    chars_of, has_prefix, indent_bytes, indent_of, join, join_chars, starts_with, string_of,
    trim_start, trim_start_chars, views,
};
use crate::ts::PythonParser;

verus! {

pub open spec fn vviews(v: Seq<Vec<char>>) -> Seq<Seq<char>> {
    v.map_values(|x: Vec<char>| x@)
}

pub open spec fn opt_chars(o: Option<Vec<char>>) -> Option<Seq<char>> {
    match o {
        Some(v) => Some(v@),
        None => None,
    }
}

/// `types` with `t` added at the end, unless it is already there.
pub open spec fn add_unique(types: Seq<Seq<char>>, t: Seq<char>) -> Seq<Seq<char>> {
    if types.contains(t) {
        types
    } else {
        types.push(t)
    }
}

/// The exception type named by the expression of a `raise` statement:
/// the callee of a call, or the name itself.
pub open spec fn raised_name(e: NodeModel, src: Seq<u8>) -> Option<Seq<char>> {
    if e.kind == "call"@ {
        match child_with_field(e.children, "function"@) {
            Some(f) => Some(node_text(f, src)),
            None => None,
        }
    } else if is_name_kind(e.kind) {
        Some(node_text(e, src))
    } else {
        None
    }
}

/// The exception context inside `n`: the type an `except` clause catches,
/// when it names one; otherwise the enclosing context.
pub open spec fn inner_context(n: NodeModel, src: Seq<u8>, ctx: Option<Seq<char>>) -> Option<
    Seq<char>,
> {
    if n.kind == "except_clause"@ {
        match first_named(n.children) {
            Some(m) => if is_name_kind(m.kind) {
                Some(node_text(m, src))
            } else {
                ctx
            },
            None => ctx,
        }
    } else {
        ctx
    }
}

/// `types` extended, in pre-order, with the exception types raised in `n`,
/// not looking into nested function or class definitions. A bare `raise`
/// counts as raising the type caught by the enclosing `except` clause.
pub open spec fn raise_walk(
    n: NodeModel,
    src: Seq<u8>,
    types: Seq<Seq<char>>,
    ctx: Option<Seq<char>>,
) -> Seq<Seq<char>>
    decreases n,
{
    if n.kind == "raise_statement"@ {
        match first_named(n.children) {
            Some(e) => match raised_name(e, src) {
                Some(t) => add_unique(types, t),
                None => types,
            },
            None => match ctx {
                Some(c) => add_unique(types, c),
                None => types,
            },
        }
    } else if is_def_kind(n.kind) {
        types
    } else {
        raise_walk_list(n.children, src, types, inner_context(n, src, ctx))
    }
}

pub open spec fn raise_walk_list(
    cs: Seq<NodeModel>,
    src: Seq<u8>,
    types: Seq<Seq<char>>,
    ctx: Option<Seq<char>>,
) -> Seq<Seq<char>>
    decreases cs,
{
    if cs.len() == 0 {
        types
    } else {
        raise_walk(cs.last(), src, raise_walk_list(cs.drop_last(), src, types, ctx), ctx)
    }
}

/// The lines of the body below the cursor: every following line up to the
/// first non-blank, non-comment line indented no deeper than `def_indent`.
pub open spec fn body_lines_from(
    lines: Seq<Seq<char>>,
    i: int,
    def_indent: nat,
    acc: Seq<Seq<char>>,
) -> Seq<Seq<char>>
    decreases lines.len() - i,
{
    if i < 0 || i >= lines.len() {
        acc
    } else {
        let t = trim_start(lines[i]);
        if t.len() == 0 || starts_with(t, "#"@) {
            body_lines_from(lines, i + 1, def_indent, acc.push(lines[i]))
        } else if indent_bytes(lines[i]) <= def_indent {
            acc
        } else {
            body_lines_from(lines, i + 1, def_indent, acc.push(lines[i]))
        }
    }
}

/// The text of the body that follows the docstring line `cursor`, if any.
pub open spec fn body_text(lines: Seq<Seq<char>>, cursor: int) -> Option<Seq<char>> {
    if cursor == 0 || cursor >= lines.len() {
        None
    } else {
        let body = body_lines_from(lines, cursor + 1, indent_bytes(lines[cursor - 1]), Seq::empty());
        if body.len() == 0 {
            None
        } else {
            Some(join(body, "\n"@))
        }
    }
}

/// The exception types raised in the body below the docstring line `cursor`.
pub open spec fn body_raise_types(lines: Seq<Seq<char>>, cursor: int) -> Seq<Seq<char>> {
    match body_text(lines, cursor) {
        None => Seq::empty(),
        Some(t) => {
            let src = vstd::utf8::encode_utf8(t);
            match python_tree(src) {
                None => Seq::empty(),
                Some(tree) => raise_walk(tree, src, Seq::empty(), None),
            }
        },
    }
}

/// Whether `t` is one of `types`.
fn contains_chars(types: &Vec<Vec<char>>, t: &[char]) -> (r: bool)
    ensures
        r == vviews(types@).contains(t@),
{
    let mut i: usize = 0;
    while i < types.len()
        invariant
            0 <= i <= types@.len(),
            forall|k: int| 0 <= k < i ==> types@[k]@ != t@,
        decreases types.len() - i,
    {
        if same_chars(types[i].as_slice(), t) {
            assert(vviews(types@)[i as int] == t@);
            return true;
        }
        i += 1;
    }
    assert forall|k: int| 0 <= k < vviews(types@).len() implies vviews(types@)[k] != t@ by {
        assert(vviews(types@)[k] == types@[k]@);
    }
    false
}

fn push_unique(types: &mut Vec<Vec<char>>, t: Vec<char>)
    ensures
        vviews(final(types)@) == add_unique(vviews(old(types)@), t@),
{
    if !contains_chars(types, t.as_slice()) {
        types.push(t);
        assert(vviews(types@) =~= vviews(old(types)@).push(t@));
    }
}

fn clone_chars_opt(o: &Option<Vec<char>>) -> (r: Option<Vec<char>>)
    ensures
        opt_chars(r) == opt_chars(*o),
{
    match o {
        Some(v) => Some(v.clone()),
        None => None,
    }
}

/// Adds to `types` the exception types raised in `node`, in pre-order and
/// without repeats; `except_context` is the type caught by the enclosing
/// `except` clause.
pub fn extract_raise_types(
    node: &SyntaxNode,
    src: &[u8],
    types: &mut Vec<Vec<char>>,
    except_context: &Option<Vec<char>>,
)
    ensures
        vviews(final(types)@) == raise_walk(
            model(*node),
            src@,
            vviews(old(types)@),
            opt_chars(*except_context),
        ),
    decreases node,
{
    if kind_is(node, "raise_statement") {
        match named_child0(node) {
            Some(e) => {
                let name = if kind_is(e, "call") {
                    opt_text_of(child_by_field_name(e, "function"), src)
                } else if is_name_node(e) {
                    Some(text_of(e, src))
                } else {
                    None
                };
                match name {
                    Some(t) => push_unique(types, t),
                    None => {},
                }
            },
            None => match except_context {
                Some(c) => push_unique(types, c.clone()),
                None => {},
            },
        }
        return ;
    }
    if is_def_node(node) {
        return ;
    }
    let new_context = if kind_is(node, "except_clause") {
        match named_child0(node) {
            Some(m) => if is_name_node(m) {
                Some(text_of(m, src))
            } else {
                clone_chars_opt(except_context)
            },
            None => clone_chars_opt(except_context),
        }
    } else {
        clone_chars_opt(except_context)
    };
    let ghost ms = models(node.children@);
    let ghost start = vviews(old(types)@);
    let ghost ctx = opt_chars(new_context);
    proof {
        lemma_models(node.children@);
        assert(ms.take(0) =~= Seq::<NodeModel>::empty());
    }
    let mut i: usize = 0;
    while i < node.children.len()
        invariant
            ms == models(node.children@),
            ms.len() == node.children@.len(),
            forall|k: int| 0 <= k < ms.len() ==> #[trigger] ms[k] == model(node.children@[k]),
            0 <= i <= ms.len(),
            ctx == opt_chars(new_context),
            vviews(types@) == raise_walk_list(ms.take(i as int), src@, start, ctx),
        decreases node.children.len() - i,
    {
        proof {
            assert(ms.take(i + 1).drop_last() =~= ms.take(i as int));
            assert(ms.take(i + 1).last() == ms[i as int]);
        }
        extract_raise_types(&node.children[i], src, types, &new_context);
        i += 1;
    }
    assert(ms.take(ms.len() as int) =~= ms);
}

/// The body text below the docstring line, as `collect_raise_types` gathers it.
pub fn body_source(all_lines: &[&str], cursor_line: usize) -> (r: Option<Vec<char>>)
    ensures
        opt_chars(r) == body_text(views(all_lines@), cursor_line as int),
{
    let ghost ls = views(all_lines@);
    if cursor_line == 0 || cursor_line >= all_lines.len() {
        return None;
    }
    assert(ls[cursor_line - 1] == all_lines@[cursor_line - 1]@);
    let def_indent = indent_of(all_lines[cursor_line - 1]);
    let hash = chars_of("#");
    let mut body: Vec<Vec<char>> = Vec::new();
    let mut i = cursor_line + 1;
    assert(vviews(body@) =~= Seq::<Seq<char>>::empty());
    while i < all_lines.len()
        invariant_except_break
            body_lines_from(ls, cursor_line + 1, def_indent as nat, Seq::empty())
                == body_lines_from(ls, i as int, def_indent as nat, vviews(body@)),
        invariant
            ls == views(all_lines@),
            cursor_line + 1 <= i <= all_lines@.len() || i == cursor_line + 1,
            hash@ == "#"@,
        ensures
            body_lines_from(ls, cursor_line + 1, def_indent as nat, Seq::empty()) == vviews(
                body@,
            ),
        decreases all_lines.len() - i,
    {
        assert(ls[i as int] == all_lines@[i as int]@);
        let line = chars_of(all_lines[i]);
        let trimmed = trim_start_chars(line.as_slice());
        if trimmed.len() == 0 || has_prefix(trimmed.as_slice(), hash.as_slice()) {
            let ghost prev = vviews(body@);
            body.push(line);
            assert(vviews(body@) =~= prev.push(ls[i as int]));
            i += 1;
            continue;
        }
        let line_indent = indent_of(all_lines[i]);
        if line_indent <= def_indent {
            break;
        }
        let ghost prev = vviews(body@);
        body.push(line);
        assert(vviews(body@) =~= prev.push(ls[i as int]));
        i += 1;
    }
    if body.len() == 0 {
        return None;
    }
    let newline = chars_of("\n");
    assert(body@.map_values(|p: Vec<char>| p@) =~= vviews(body@));
    Some(join_chars(&body, newline.as_slice()))
}

/// Exception types raised in the body below the docstring line: the body is
/// parsed as Python and walked by `extract_raise_types`.
pub fn collect_raise_types(parser: &mut PythonParser, all_lines: &[&str], cursor_line: usize) -> (r:
    Vec<Vec<char>>)
    ensures
        vviews(r@) == body_raise_types(views(all_lines@), cursor_line as int),
{
    let mut types: Vec<Vec<char>> = Vec::new();
    let body = match body_source(all_lines, cursor_line) {
        Some(b) => b,
        None => {
            assert(vviews(types@) =~= Seq::<Seq<char>>::empty());
            return types;
        },
    };
    let body_text = string_of(body.as_slice());
    let tree = match parse_python_tree(parser, body_text.as_str()) {
        Some(t) => t,
        None => {
            assert(vviews(types@) =~= Seq::<Seq<char>>::empty());
            return types;
        },
    };
    let src = body_text.as_str().as_bytes();
    assert(vviews(types@) =~= Seq::<Seq<char>>::empty());
    extract_raise_types(&tree, src, &mut types, &None);
    types
}

} // verus!

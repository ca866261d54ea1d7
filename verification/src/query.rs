//! Questions asked of a syntax tree: kinds, fields, named children, text.
use vstd::prelude::*;
use crate::syntax::{lemma_models, model, models, NodeModel, SyntaxNode};
use crate::text::chars_of;
use crate::ts::utf8_str;

verus! {

/// A function definition, a class definition, or either one under decorators.
pub open spec fn is_def_kind(k: Seq<char>) -> bool {
    ||| k == "function_definition"@
    ||| k == "class_definition"@
    ||| k == "decorated_definition"@
}

/// A bare or dotted name.
pub open spec fn is_name_kind(k: Seq<char>) -> bool {
    k == "identifier"@ || k == "attribute"@
}

/// The first definition node in pre-order.
pub open spec fn first_def(t: NodeModel) -> Option<NodeModel>
    decreases t,
{
    if is_def_kind(t.kind) {
        Some(t)
    } else {
        first_def_in(t.children)
    }
}

pub open spec fn first_def_in(cs: Seq<NodeModel>) -> Option<NodeModel>
    decreases cs,
{
    if cs.len() == 0 {
        None
    } else {
        match first_def(cs[0]) {
            Some(d) => Some(d),
            None => first_def_in(cs.drop_first()),
        }
    }
}

/// The first child standing under field `f`.
pub open spec fn child_with_field(cs: Seq<NodeModel>, f: Seq<char>) -> Option<NodeModel>
    decreases cs.len(),
{
    if cs.len() == 0 {
        None
    } else if cs[0].field == Some(f) {
        Some(cs[0])
    } else {
        child_with_field(cs.drop_first(), f)
    }
}

/// The first named child.
pub open spec fn first_named(cs: Seq<NodeModel>) -> Option<NodeModel>
    decreases cs.len(),
{
    if cs.len() == 0 {
        None
    } else if cs[0].named {
        Some(cs[0])
    } else {
        first_named(cs.drop_first())
    }
}

/// The source text of a node: its bytes decoded as UTF-8, or empty when the
/// range does not lie in `src` or the bytes are not valid UTF-8.
pub open spec fn node_text(n: NodeModel, src: Seq<u8>) -> Seq<char> {
    if n.start <= n.end <= src.len() && vstd::utf8::valid_utf8(
        src.subrange(n.start as int, n.end as int),
    ) {
        vstd::utf8::decode_utf8(src.subrange(n.start as int, n.end as int))
    } else {
        Seq::empty()
    }
}

pub open spec fn opt_text(n: Option<NodeModel>, src: Seq<u8>) -> Option<Seq<char>> {
    match n {
        Some(m) => Some(node_text(m, src)),
        None => None,
    }
}

pub open spec fn opt_node_model(n: Option<&SyntaxNode>) -> Option<NodeModel> {
    match n {
        Some(m) => Some(model(*m)),
        None => None,
    }
}

/// Whether two character sequences are equal.
pub fn same_chars(a: &[char], b: &[char]) -> (r: bool)
    ensures
        r == (a@ == b@),
{
    if a.len() != b.len() {
        return false;
    }
    let mut i: usize = 0;
    while i < a.len()
        invariant
            a@.len() == b@.len(),
            0 <= i <= a@.len(),
            forall|k: int| 0 <= k < i ==> a@[k] == b@[k],
        decreases a.len() - i,
    {
        if a[i] != b[i] {
            return false;
        }
        i += 1;
    }
    assert(a@ =~= b@);
    true
}

/// Whether two strings are equal.
pub fn str_eq(a: &str, b: &str) -> (r: bool)
    ensures
        r == (a@ == b@),
{
    let x = chars_of(a);
    let y = chars_of(b);
    same_chars(x.as_slice(), y.as_slice())
}

pub fn kind_is(n: &SyntaxNode, k: &str) -> (r: bool)
    ensures
        r == (model(*n).kind == k@),
{
    str_eq(n.kind.as_str(), k)
}

pub fn is_def_node(n: &SyntaxNode) -> (r: bool)
    ensures
        r == is_def_kind(model(*n).kind),
{
    kind_is(n, "function_definition") || kind_is(n, "class_definition") || kind_is(
        n,
        "decorated_definition",
    )
}

pub fn is_name_node(n: &SyntaxNode) -> (r: bool)
    ensures
        r == is_name_kind(model(*n).kind),
{
    kind_is(n, "identifier") || kind_is(n, "attribute")
}

/// The first function, class or decorated definition in pre-order.
pub fn first_def_node(n: &SyntaxNode) -> (r: Option<&SyntaxNode>)
    ensures
        opt_node_model(r) == first_def(model(*n)),
    decreases n,
{
    if is_def_node(n) {
        return Some(n);
    }
    let ghost ms = models(n.children@);
    proof {
        lemma_models(n.children@);
        assert(ms.skip(0) =~= ms);
        assert(model(*n).children == ms);
        assert(first_def(model(*n)) == first_def_in(ms));
    }
    let mut i: usize = 0;
    while i < n.children.len()
        invariant
            ms == models(n.children@),
            ms.len() == n.children@.len(),
            forall|k: int| 0 <= k < ms.len() ==> #[trigger] ms[k] == model(n.children@[k]),
            0 <= i <= ms.len(),
            first_def(model(*n)) == first_def_in(ms),
            first_def_in(ms) == first_def_in(ms.skip(i as int)),
        decreases n.children.len() - i,
    {
        assert(ms.skip(i as int)[0] == ms[i as int]);
        assert(ms.skip(i as int).drop_first() =~= ms.skip(i + 1));
        match first_def_node(&n.children[i]) {
            Some(d) => {
                assert(first_def(ms[i as int]) == Some(model(*d)));
                assert(first_def_in(ms.skip(i as int)) == Some(model(*d)));
                return Some(d);
            },
            None => {},
        }
        i += 1;
    }
    None
}

/// The first child under field `f`.
pub fn child_by_field_name<'a>(n: &'a SyntaxNode, f: &str) -> (r: Option<&'a SyntaxNode>)
    ensures
        opt_node_model(r) == child_with_field(model(*n).children, f@),
{
    let ghost ms = models(n.children@);
    proof {
        lemma_models(n.children@);
        assert(ms.skip(0) =~= ms);
    }
    let mut i: usize = 0;
    while i < n.children.len()
        invariant
            ms == models(n.children@),
            ms.len() == n.children@.len(),
            forall|k: int| 0 <= k < ms.len() ==> #[trigger] ms[k] == model(n.children@[k]),
            0 <= i <= ms.len(),
            child_with_field(ms, f@) == child_with_field(ms.skip(i as int), f@),
        decreases n.children.len() - i,
    {
        assert(ms.skip(i as int)[0] == ms[i as int]);
        assert(ms.skip(i as int).drop_first() =~= ms.skip(i + 1));
        let c = &n.children[i];
        let hit = match &c.field {
            Some(name) => str_eq(name.as_str(), f),
            None => false,
        };
        if hit {
            return Some(c);
        }
        i += 1;
    }
    None
}

/// The first named child.
pub fn named_child0(n: &SyntaxNode) -> (r: Option<&SyntaxNode>)
    ensures
        opt_node_model(r) == first_named(model(*n).children),
{
    let ghost ms = models(n.children@);
    proof {
        lemma_models(n.children@);
        assert(ms.skip(0) =~= ms);
    }
    let mut i: usize = 0;
    while i < n.children.len()
        invariant
            ms == models(n.children@),
            ms.len() == n.children@.len(),
            forall|k: int| 0 <= k < ms.len() ==> #[trigger] ms[k] == model(n.children@[k]),
            0 <= i <= ms.len(),
            first_named(ms) == first_named(ms.skip(i as int)),
        decreases n.children.len() - i,
    {
        assert(ms.skip(i as int)[0] == ms[i as int]);
        assert(ms.skip(i as int).drop_first() =~= ms.skip(i + 1));
        if n.children[i].named {
            return Some(&n.children[i]);
        }
        i += 1;
    }
    None
}

/// The source text of `n`.
pub fn text_of(n: &SyntaxNode, src: &[u8]) -> (r: Vec<char>)
    ensures
        r@ == node_text(model(*n), src@),
{
    if n.start <= n.end && n.end <= src.len() {
        let bytes = vstd::slice::slice_subrange(src, n.start, n.end);
        match utf8_str(bytes) {
            Some(s) => {
                proof {
                    vstd::utf8::encode_utf8_decode_utf8(s@);
                }
                chars_of(s)
            },
            None => Vec::new(),
        }
    } else {
        Vec::new()
    }
}

pub fn opt_text_of(n: Option<&SyntaxNode>, src: &[u8]) -> (r: Option<Vec<char>>)
    ensures
        match r {
            Some(t) => opt_text(opt_node_model(n), src@) == Some(t@),
            None => opt_text(opt_node_model(n), src@) is None,
        },
{
    match n {
        Some(m) => Some(text_of(m, src)),
        None => None,
    }
}

} // verus!

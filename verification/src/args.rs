//! Parameters of a function definition, as they are documented.
use vstd::prelude::*;
use crate::query::{
    child_by_field_name, child_with_field, kind_is, node_text, opt_node_model, opt_text,
    opt_text_of, same_chars, text_of,
};
use crate::syntax::{lemma_models, model, models, NodeModel, SyntaxNode};
use crate::text::{append_chars, chars_of};

verus! {

/// A documented name: a parameter or a dataclass field, with its type
/// annotation and default value when it has them.
pub struct ArgDoc {
    pub name: Seq<char>,
    pub annotation: Option<Seq<char>>,
    pub default: Option<Seq<char>>,
}

/// A documented name: a parameter or a dataclass field, with its type
/// annotation and default value when it has them.
pub struct ParamDoc {
    pub name: Vec<char>,
    pub annotation: Option<Vec<char>>,
    pub default: Option<Vec<char>>,
}

pub open spec fn opt_seq(o: Option<Vec<char>>) -> Option<Seq<char>> {
    match o {
        Some(v) => Some(v@),
        None => None,
    }
}

impl ParamDoc {
    pub open spec fn view(&self) -> ArgDoc {
        ArgDoc {
            name: self.name@,
            annotation: opt_seq(self.annotation),
            default: opt_seq(self.default),
        }
    }
}

pub open spec fn arg_views(v: Seq<ParamDoc>) -> Seq<ArgDoc> {
    v.map_values(|p: ParamDoc| p.view())
}

/// `self` and `cls` are not documented.
pub open spec fn is_self_or_cls(name: Seq<char>) -> bool {
    name == "self"@ || name == "cls"@
}

pub open spec fn text_or_empty(o: Option<Seq<char>>) -> Seq<char> {
    match o {
        Some(t) => t,
        None => Seq::empty(),
    }
}

/// The names bound by `*args` or `**kwargs`, with the stars in front.
pub open spec fn splat_args(cs: Seq<NodeModel>, prefix: Seq<char>, src: Seq<u8>) -> Seq<ArgDoc>
    decreases cs.len(),
{
    if cs.len() == 0 {
        Seq::empty()
    } else {
        splat_args(cs.drop_last(), prefix, src) + if cs.last().kind == "identifier"@ {
            seq![ArgDoc { name: prefix + node_text(cs.last(), src), annotation: None, default: None }]
        } else {
            Seq::empty()
        }
    }
}

/// What one child of a `parameters` node contributes to the documentation.
pub open spec fn param_args(c: NodeModel, src: Seq<u8>) -> Seq<ArgDoc> {
    if c.kind == "identifier"@ {
        let name = node_text(c, src);
        if is_self_or_cls(name) {
            Seq::empty()
        } else {
            seq![ArgDoc { name, annotation: None, default: None }]
        }
    } else if c.kind == "typed_parameter"@ {
        let name = if c.children.len() > 0 {
            node_text(c.children[0], src)
        } else {
            Seq::empty()
        };
        if is_self_or_cls(name) {
            Seq::empty()
        } else {
            seq![
                ArgDoc {
                    name,
                    annotation: opt_text(child_with_field(c.children, "type"@), src),
                    default: None,
                },
            ]
        }
    } else if c.kind == "default_parameter"@ {
        let name = text_or_empty(opt_text(child_with_field(c.children, "name"@), src));
        if is_self_or_cls(name) {
            Seq::empty()
        } else {
            seq![
                ArgDoc {
                    name,
                    annotation: None,
                    default: opt_text(child_with_field(c.children, "value"@), src),
                },
            ]
        }
    } else if c.kind == "typed_default_parameter"@ {
        let name = text_or_empty(opt_text(child_with_field(c.children, "name"@), src));
        if is_self_or_cls(name) {
            Seq::empty()
        } else {
            seq![
                ArgDoc {
                    name,
                    annotation: opt_text(child_with_field(c.children, "type"@), src),
                    default: opt_text(child_with_field(c.children, "value"@), src),
                },
            ]
        }
    } else if c.kind == "list_splat_pattern"@ {
        splat_args(c.children, "*"@, src)
    } else if c.kind == "dictionary_splat_pattern"@ {
        splat_args(c.children, "**"@, src)
    } else {
        Seq::empty()
    }
}

/// The documented parameters among the children of a `parameters` node.
pub open spec fn params_args(cs: Seq<NodeModel>, src: Seq<u8>) -> Seq<ArgDoc>
    decreases cs.len(),
{
    if cs.len() == 0 {
        Seq::empty()
    } else {
        params_args(cs.drop_last(), src) + param_args(cs.last(), src)
    }
}

fn is_self_or_cls_name(name: &[char]) -> (r: bool)
    ensures
        r == is_self_or_cls(name@),
{
    let s = chars_of("self");
    let c = chars_of("cls");
    same_chars(name, s.as_slice()) || same_chars(name, c.as_slice())
}

fn text_or_empty_of(o: Option<Vec<char>>) -> (r: Vec<char>)
    ensures
        r@ == text_or_empty(opt_seq(o)),
{
    match o {
        Some(t) => t,
        None => Vec::new(),
    }
}

/// Pushes the names bound under a `*`/`**` pattern.
fn push_splat_args(node: &SyntaxNode, prefix: &str, src: &[u8], args: &mut Vec<ParamDoc>)
    ensures
        arg_views(final(args)@) == arg_views(old(args)@) + splat_args(
            model(*node).children,
            prefix@,
            src@,
        ),
{
    let ghost ms = models(node.children@);
    let ghost start = arg_views(old(args)@);
    proof {
        lemma_models(node.children@);
        assert(ms.take(0) =~= Seq::<NodeModel>::empty());
        assert(start + Seq::<ArgDoc>::empty() =~= start);
    }
    let mut i: usize = 0;
    while i < node.children.len()
        invariant
            ms == models(node.children@),
            ms.len() == node.children@.len(),
            forall|k: int| 0 <= k < ms.len() ==> #[trigger] ms[k] == model(node.children@[k]),
            0 <= i <= ms.len(),
            arg_views(args@) == start + splat_args(ms.take(i as int), prefix@, src@),
        decreases node.children.len() - i,
    {
        proof {
            assert(ms.take(i + 1).drop_last() =~= ms.take(i as int));
            assert(ms.take(i + 1).last() == ms[i as int]);
        }
        let g = &node.children[i];
        let ghost before = arg_views(args@);
        if kind_is(g, "identifier") {
            let mut name = chars_of(prefix);
            let t = text_of(g, src);
            append_chars(&mut name, t.as_slice());
            args.push(ParamDoc { name, annotation: None, default: None });
            assert(arg_views(args@) =~= before.push(args@.last().view()));
        }
        assert(arg_views(args@) =~= start + splat_args(ms.take(i + 1), prefix@, src@));
        i += 1;
    }
    assert(ms.take(ms.len() as int) =~= ms);
}

/// Returns (name, type annotation, default value) for each parameter,
/// skipping `self` and `cls`.
pub fn collect_args(params_node: &SyntaxNode, src: &[u8]) -> (args: Vec<ParamDoc>)
    ensures
        arg_views(args@) == params_args(model(*params_node).children, src@),
{
    let ghost ms = models(params_node.children@);
    proof {
        lemma_models(params_node.children@);
        assert(ms.take(0) =~= Seq::<NodeModel>::empty());
    }
    let mut args: Vec<ParamDoc> = Vec::new();
    assert(arg_views(args@) =~= Seq::<ArgDoc>::empty());
    let mut i: usize = 0;
    while i < params_node.children.len()
        invariant
            ms == models(params_node.children@),
            ms.len() == params_node.children@.len(),
            forall|k: int| 0 <= k < ms.len() ==> #[trigger] ms[k] == model(params_node.children@[k]),
            0 <= i <= ms.len(),
            arg_views(args@) == params_args(ms.take(i as int), src@),
        decreases params_node.children.len() - i,
    {
        proof {
            assert(ms.take(i + 1).drop_last() =~= ms.take(i as int));
            assert(ms.take(i + 1).last() == ms[i as int]);
        }
        let child = &params_node.children[i];
        let ghost before = arg_views(args@);
        let ghost cm = model(*child);
        proof {
            lemma_models(child.children@);
        }
        if kind_is(child, "identifier") {
            let name = text_of(child, src);
            if !is_self_or_cls_name(name.as_slice()) {
                args.push(ParamDoc { name, annotation: None, default: None });
                assert(arg_views(args@) =~= before + param_args(cm, src@));
            } else {
                assert(before + param_args(cm, src@) =~= before);
            }
        } else if kind_is(child, "typed_parameter") {
            let name = if child.children.len() > 0 {
                text_of(&child.children[0], src)
            } else {
                Vec::new()
            };
            if !is_self_or_cls_name(name.as_slice()) {
                let annotation = opt_text_of(child_by_field_name(child, "type"), src);
                args.push(ParamDoc { name, annotation, default: None });
                assert(arg_views(args@) =~= before + param_args(cm, src@));
            } else {
                assert(before + param_args(cm, src@) =~= before);
            }
        } else if kind_is(child, "default_parameter") {
            let name = text_or_empty_of(opt_text_of(child_by_field_name(child, "name"), src));
            if !is_self_or_cls_name(name.as_slice()) {
                let default = opt_text_of(child_by_field_name(child, "value"), src);
                args.push(ParamDoc { name, annotation: None, default });
                assert(arg_views(args@) =~= before + param_args(cm, src@));
            } else {
                assert(before + param_args(cm, src@) =~= before);
            }
        } else if kind_is(child, "typed_default_parameter") {
            let name = text_or_empty_of(opt_text_of(child_by_field_name(child, "name"), src));
            if !is_self_or_cls_name(name.as_slice()) {
                let annotation = opt_text_of(child_by_field_name(child, "type"), src);
                let default = opt_text_of(child_by_field_name(child, "value"), src);
                args.push(ParamDoc { name, annotation, default });
                assert(arg_views(args@) =~= before + param_args(cm, src@));
            } else {
                assert(before + param_args(cm, src@) =~= before);
            }
        } else if kind_is(child, "list_splat_pattern") {
            push_splat_args(child, "*", src, &mut args);
        } else if kind_is(child, "dictionary_splat_pattern") {
            push_splat_args(child, "**", src, &mut args);
        } else {
            assert(before + param_args(cm, src@) =~= before);
        }
        assert(arg_views(args@) == params_args(ms.take(i + 1), src@));
        i += 1;
    }
    assert(ms.take(ms.len() as int) =~= ms);
    args
}

} // verus!

//! What holds of every docstring and completion the library produces.
use vstd::prelude::*;
use crate::args::{is_self_or_cls, param_args, params_args, splat_args, ArgDoc};
use crate::raises::{add_unique, inner_context, raise_walk, raise_walk_list};
use crate::query::is_def_kind;
use crate::render::{class_doc, function_doc, has_return_type, lines_counter};
use crate::syntax::NodeModel;
use crate::platform::{target_triple_of, Architecture, Os};
use crate::completion::{snippet_for, snippet_of, text_before};
use crate::dataclass::{dataclass_fields, field_doc, fields_from};
use crate::definition::definition_above;
use crate::docgen::docstring_of_tree;
use crate::query::first_def;
use crate::text::{ends_with, join, starts_with, trim, trim_end, trim_start};

verus! {

/// Whether a raise statement occurs anywhere in `n`.
pub open spec fn has_raise(n: NodeModel) -> bool
    decreases n,
{
    n.kind == "raise_statement"@ || has_raise_list(n.children)
}

pub open spec fn has_raise_list(cs: Seq<NodeModel>) -> bool
    decreases cs,
{
    if cs.len() == 0 {
        false
    } else {
        has_raise_list(cs.drop_last()) || has_raise(cs.last())
    }
}

/// A tree without a raise statement adds no exception type: the `Raises:`
/// section is only generated when the body raises.
pub proof fn law_no_raise_statement_no_raises(
    n: NodeModel,
    src: Seq<u8>,
    types: Seq<Seq<char>>,
    ctx: Option<Seq<char>>,
)
    requires
        !has_raise(n),
    ensures
        raise_walk(n, src, types, ctx) == types,
    decreases n,
{
    if !is_def_kind(n.kind) {
        lemma_no_raise_list(n.children, src, types, inner_context(n, src, ctx));
    }
}

proof fn lemma_no_raise_list(
    cs: Seq<NodeModel>,
    src: Seq<u8>,
    types: Seq<Seq<char>>,
    ctx: Option<Seq<char>>,
)
    requires
        !has_raise_list(cs),
    ensures
        raise_walk_list(cs, src, types, ctx) == types,
    decreases cs,
{
    if cs.len() > 0 {
        lemma_no_raise_list(cs.drop_last(), src, types, ctx);
        law_no_raise_statement_no_raises(cs.last(), src, types, ctx);
    }
}

/// Exceptions raised inside a nested function or class definition are not
/// those of the enclosing function.
pub proof fn law_nested_definitions_skipped(
    n: NodeModel,
    src: Seq<u8>,
    types: Seq<Seq<char>>,
    ctx: Option<Seq<char>>,
)
    requires
        is_def_kind(n.kind),
    ensures
        raise_walk(n, src, types, ctx) == types,
{
    reveal_strlit("raise_statement");
    reveal_strlit("function_definition");
    reveal_strlit("class_definition");
    reveal_strlit("decorated_definition");
    assert("raise_statement"@.len() == 15);
    assert("function_definition"@.len() == 19);
    assert("class_definition"@.len() == 16);
    assert("decorated_definition"@.len() == 20);
}

proof fn lemma_add_unique(types: Seq<Seq<char>>, t: Seq<char>)
    requires
        types.no_duplicates(),
    ensures
        add_unique(types, t).no_duplicates(),
        add_unique(types, t).len() >= types.len(),
        add_unique(types, t).take(types.len() as int) == types,
        add_unique(types, t).contains(t),
{
    if !types.contains(t) {
        let r = types.push(t);
        assert(r[types.len() as int] == t);
        assert(r.take(types.len() as int) =~= types);
        assert forall|i: int, j: int| 0 <= i < r.len() && 0 <= j < r.len() && i != j implies r[i]
            != r[j] by {
            if i < types.len() && j < types.len() {
                assert(r[i] == types[i] && r[j] == types[j]);
            } else if i < types.len() {
                assert(r[i] == types[i]);
            } else {
                assert(r[j] == types[j]);
            }
        }
    } else {
        assert(types.take(types.len() as int) =~= types);
    }
}

/// Each exception type is listed once, and the types found earlier keep
/// their place: the `Raises:` entries come in order of first appearance.
pub proof fn law_raise_types_distinct(
    n: NodeModel,
    src: Seq<u8>,
    types: Seq<Seq<char>>,
    ctx: Option<Seq<char>>,
)
    requires
        types.no_duplicates(),
    ensures
        raise_walk(n, src, types, ctx).no_duplicates(),
        raise_walk(n, src, types, ctx).len() >= types.len(),
        raise_walk(n, src, types, ctx).take(types.len() as int) == types,
    decreases n,
{
    let r = raise_walk(n, src, types, ctx);
    if n.kind == "raise_statement"@ {
        match crate::query::first_named(n.children) {
            Some(e) => match crate::raises::raised_name(e, src) {
                Some(t) => lemma_add_unique(types, t),
                None => assert(types.take(types.len() as int) =~= types),
            },
            None => match ctx {
                Some(c) => lemma_add_unique(types, c),
                None => assert(types.take(types.len() as int) =~= types),
            },
        }
    } else if is_def_kind(n.kind) {
        assert(types.take(types.len() as int) =~= types);
    } else {
        lemma_raise_types_distinct_list(n.children, src, types, inner_context(n, src, ctx));
    }
}

proof fn lemma_raise_types_distinct_list(
    cs: Seq<NodeModel>,
    src: Seq<u8>,
    types: Seq<Seq<char>>,
    ctx: Option<Seq<char>>,
)
    requires
        types.no_duplicates(),
    ensures
        raise_walk_list(cs, src, types, ctx).no_duplicates(),
        raise_walk_list(cs, src, types, ctx).len() >= types.len(),
        raise_walk_list(cs, src, types, ctx).take(types.len() as int) == types,
    decreases cs,
{
    if cs.len() == 0 {
        assert(types.take(types.len() as int) =~= types);
    } else {
        let mid = raise_walk_list(cs.drop_last(), src, types, ctx);
        lemma_raise_types_distinct_list(cs.drop_last(), src, types, ctx);
        law_raise_types_distinct(cs.last(), src, mid, ctx);
        let r = raise_walk(cs.last(), src, mid, ctx);
        assert(r.take(types.len() as int) =~= mid.take(types.len() as int)) by {
            assert forall|i: int| 0 <= i < types.len() implies r[i] == mid[i] by {
                assert(r.take(mid.len() as int)[i] == mid[i]);
            }
        }
    }
}

/// A `None` return annotation (or an empty one) is documented as no
/// annotation at all: no `Returns:` section.
pub proof fn law_none_return_omitted(
    args: Seq<ArgDoc>,
    raises: Seq<Seq<char>>,
)
    ensures
        function_doc(args, Some("None"@), raises) == function_doc(args, None, raises),
        function_doc(args, Some("none"@), raises) == function_doc(args, None, raises),
        function_doc(args, Some(Seq::empty()), raises) == function_doc(args, None, raises),
{
    assert(!has_return_type(Some("None"@)));
    assert(!has_return_type(Some("none"@)));
    assert(!has_return_type(Some(Seq::<char>::empty())));
}

/// The first of the joined pieces is a prefix of the result.
proof fn lemma_join_prefix(seqs: Seq<Seq<char>>, sep: Seq<char>)
    requires
        seqs.len() > 0,
    ensures
        join(seqs, sep).len() >= seqs[0].len(),
        join(seqs, sep).take(seqs[0].len() as int) == seqs[0],
    decreases seqs.len(),
{
    if seqs.len() == 1 {
        assert(seqs[0].take(seqs[0].len() as int) =~= seqs[0]);
    } else {
        let d = seqs.drop_last();
        lemma_join_prefix(d, sep);
        assert(d[0] == seqs[0]);
        let j = join(d, sep) + sep + seqs.last();
        assert(j.take(seqs[0].len() as int) =~= join(d, sep).take(seqs[0].len() as int));
    }
}

/// A function docstring is the bare summary placeholder exactly when there is
/// nothing else to document: no parameter, no documented return type and no
/// raised exception. Otherwise the summary stands on a line of its own.
pub proof fn law_summary_only_iff_nothing_to_document(
    args: Seq<ArgDoc>,
    rt: Option<Seq<char>>,
    raises: Seq<Seq<char>>,
)
    ensures
        (function_doc(args, rt, raises) == "${1:Summary.}"@) <==> (args.len() == 0
            && !has_return_type(rt) && raises.len() == 0),
        !(args.len() == 0 && !has_return_type(rt) && raises.len() == 0) ==> function_doc(
            args,
            rt,
            raises,
        ).len() > 0 && function_doc(args, rt, raises)[0] == '\n',
{
    reveal_strlit("${1:Summary.}");
    reveal_strlit("\n${1:Summary.}");
    if !(args.len() == 0 && !has_return_type(rt) && raises.len() == 0) {
        let c1 = lines_counter(args, 2);
        let c2 = crate::render::returns_counter(rt, c1);
        let pieces = seq!["\n${1:Summary.}"@] + crate::render::args_section(args, 2)
            + crate::render::returns_section(rt, c1) + crate::render::raises_section(raises, c2);
        assert(pieces[0] == "\n${1:Summary.}"@);
        lemma_join_prefix(pieces, "\n"@);
        let d = function_doc(args, rt, raises);
        assert(d == join(pieces, "\n"@));
        assert(d.take(pieces[0].len() as int)[0] == d[0]);
        assert(d[0] == '\n');
        assert("${1:Summary.}"@[0] == '$');
    }
}

/// A class that is not a dataclass gets a summary only: its constructor's
/// parameters are documented in `__init__`.
pub proof fn law_plain_class_summary_only(fields: Seq<ArgDoc>)
    ensures
        class_doc(false, fields) == "${1:Summary.}"@,
{
}

/// How many placeholders the lines of `args` take: one for each description,
/// and one more for each type that is not annotated.
pub open spec fn unannotated(args: Seq<ArgDoc>) -> nat
    decreases args.len(),
{
    if args.len() == 0 {
        0
    } else {
        unannotated(args.drop_last()) + if args.last().annotation is None {
            1nat
        } else {
            0nat
        }
    }
}

/// The placeholders of the parameter lines are numbered one after another:
/// one for each description and one for each missing type.
pub proof fn law_placeholders_consecutive(args: Seq<ArgDoc>, counter: nat)
    ensures
        lines_counter(args, counter) == counter + args.len() + unannotated(args),
    decreases args.len(),
{
    if args.len() > 0 {
        law_placeholders_consecutive(args.drop_last(), counter);
    }
}

proof fn lemma_splat_not_self(cs: Seq<NodeModel>, prefix: Seq<char>, src: Seq<u8>)
    requires
        prefix.len() > 0,
        prefix[0] == '*',
    ensures
        forall|i: int|
            0 <= i < splat_args(cs, prefix, src).len() ==> !is_self_or_cls(
                #[trigger] splat_args(cs, prefix, src)[i].name,
            ),
    decreases cs.len(),
{
    reveal_strlit("self");
    reveal_strlit("cls");
    if cs.len() > 0 {
        lemma_splat_not_self(cs.drop_last(), prefix, src);
        let s = splat_args(cs, prefix, src);
        let d = splat_args(cs.drop_last(), prefix, src);
        assert forall|i: int| 0 <= i < s.len() implies !is_self_or_cls(#[trigger] s[i].name) by {
            if i < d.len() {
                assert(s[i] == d[i]);
            } else {
                let name = prefix + crate::query::node_text(cs.last(), src);
                assert(s[i].name == name);
                assert(name[0] == '*');
                assert("self"@[0] == 's');
                assert("cls"@[0] == 'c');
            }
        }
    }
}

/// `self` and `cls` are never documented as parameters.
pub proof fn law_self_and_cls_not_documented(cs: Seq<NodeModel>, src: Seq<u8>)
    ensures
        forall|i: int|
            0 <= i < params_args(cs, src).len() ==> !is_self_or_cls(
                #[trigger] params_args(cs, src)[i].name,
            ),
    decreases cs.len(),
{
    reveal_strlit("*");
    reveal_strlit("**");
    if cs.len() > 0 {
        law_self_and_cls_not_documented(cs.drop_last(), src);
        let c = cs.last();
        lemma_splat_not_self(c.children, "*"@, src);
        lemma_splat_not_self(c.children, "**"@, src);
        let p = params_args(cs, src);
        let d = params_args(cs.drop_last(), src);
        let q = param_args(c, src);
        assert(p == d + q);
        assert forall|i: int| 0 <= i < p.len() implies !is_self_or_cls(#[trigger] p[i].name) by {
            if i < d.len() {
                assert(p[i] == d[i]);
            } else {
                assert(p[i] == q[i - d.len()]);
            }
        }
    }
}

/// A class definition gets the summary placeholder alone, and so does a
/// decorated class that is not a dataclass.
pub proof fn law_class_docstring_summary_only(
    root: NodeModel,
    src: Seq<u8>,
    raises: Seq<Seq<char>>,
    lines: Seq<Seq<char>>,
    cursor: int,
)
    ensures
        match first_def(root) {
            Some(node) => node.kind == "class_definition"@ ==> docstring_of_tree(
                Some(root),
                src,
                raises,
                lines,
                cursor,
            ) == Some("${1:Summary.}"@),
            None => true,
        },
        match first_def(root) {
            Some(node) => match crate::query::child_with_field(node.children, "definition"@) {
                Some(inner) => (node.kind == "decorated_definition"@ && inner.kind
                    == "class_definition"@ && !crate::dataclass::has_dataclass_decorator(
                    node.children,
                    src,
                )) ==> docstring_of_tree(Some(root), src, raises, lines, cursor) == Some(
                    "${1:Summary.}"@,
                ),
                None => true,
            },
            None => true,
        },
{
    assert("function_definition"@.len() == 19) by { reveal_strlit("function_definition"); }
    assert("class_definition"@.len() == 16) by { reveal_strlit("class_definition"); }
    assert("decorated_definition"@.len() == 20) by { reveal_strlit("decorated_definition"); }
}

/// A field annotated `ClassVar` or `InitVar` is not an instance field.
pub open spec fn is_class_level(a: ArgDoc) -> bool {
    match a.annotation {
        Some(t) => starts_with(t, "ClassVar"@) || starts_with(t, "InitVar"@),
        None => false,
    }
}

proof fn lemma_fields_from_instance_only(
    lines: Seq<Seq<char>>,
    i: int,
    class_indent: nat,
    acc: Seq<ArgDoc>,
)
    requires
        forall|k: int| 0 <= k < acc.len() ==> !is_class_level(#[trigger] acc[k]),
    ensures
        forall|k: int|
            0 <= k < fields_from(lines, i, class_indent, acc).len() ==> !is_class_level(
                #[trigger] fields_from(lines, i, class_indent, acc)[k],
            ),
    decreases lines.len() - i,
{
    let r = fields_from(lines, i, class_indent, acc);
    if 0 <= i < lines.len() {
        let t = trim_start(lines[i]);
        lemma_fields_from_instance_only(lines, i + 1, class_indent, acc);
        match field_doc(t) {
            Some(f) => {
                reveal_strlit("ClassVar");
                reveal_strlit("InitVar");
                assert(!is_class_level(f));
                let acc2 = acc.push(f);
                assert forall|k: int| 0 <= k < acc2.len() implies !is_class_level(
                    #[trigger] acc2[k],
                ) by {
                    if k < acc.len() {
                        assert(acc2[k] == acc[k]);
                    }
                }
                lemma_fields_from_instance_only(lines, i + 1, class_indent, acc2);
                assert(r == acc || r == fields_from(lines, i + 1, class_indent, acc) || r
                    == fields_from(lines, i + 1, class_indent, acc2));
            },
            None => {
                assert(r == acc || r == fields_from(lines, i + 1, class_indent, acc));
            },
        }
    }
}

/// `ClassVar` and `InitVar` annotations are never documented as dataclass
/// attributes.
pub proof fn law_class_variables_not_attributes(lines: Seq<Seq<char>>, cursor: int)
    ensures
        forall|k: int|
            0 <= k < dataclass_fields(lines, cursor).len() ==> !is_class_level(
                #[trigger] dataclass_fields(lines, cursor)[k],
            ),
{
    if !(cursor == 0 || cursor >= lines.len()) {
        lemma_fields_from_instance_only(
            lines,
            cursor + 1,
            crate::text::indent_bytes(lines[cursor - 1]),
            Seq::empty(),
        );
    }
}

/// The definition found above a docstring line ends with the `:` that opens
/// its body.
pub proof fn law_definition_ends_with_colon(lines: Seq<Seq<char>>, cursor: int)
    ensures
        definition_above(lines, cursor) matches Some(d) ==> ends_with(trim_end(d), ":"@),
{
}

/// Every snippet ends with the closing `"""`; a one-line body is closed on
/// its own line.
pub proof fn law_snippet_closed(body: Seq<char>, indent_len: nat)
    ensures
        snippet_of(body, indent_len).len() >= 3,
        snippet_of(body, indent_len).skip(snippet_of(body, indent_len).len() - 3) == "\"\"\""@,
        !(body.len() > 0 && body[0] == '\n') ==> snippet_of(body, indent_len) == body
            + "\"\"\""@,
{
    reveal_strlit("\"\"\"");
    let s = snippet_of(body, indent_len);
    let q = "\"\"\""@;
    let pre = s.take(s.len() - 3);
    assert(s =~= pre + q) by {
        assert forall|i: int| s.len() - 3 <= i < s.len() implies s[i] == q[i - (s.len() - 3)] by {
        }
    }
    assert(s.skip(s.len() - 3) =~= q);
}

/// A completion is offered only when the text before the cursor is `"""`
/// and a definition lies above the line.
pub proof fn law_completion_needs_triple_quote(
    lines: Seq<Seq<char>>,
    cursor_line: int,
    cursor_char: nat,
)
    ensures
        snippet_for(lines, cursor_line, cursor_char) is Some ==> (0 <= cursor_line < lines.len()
            && trim(text_before(lines[cursor_line], cursor_char)) == "\"\"\""@ && definition_above(
            lines,
            cursor_line,
        ) is Some),
{
}


proof fn lemma_add_unique_records(types: Seq<Seq<char>>, t: Seq<char>)
    ensures
        add_unique(types, t).contains(t),
        add_unique(types, t).take(types.len() as int) == types,
        add_unique(types, t).len() <= types.len() + 1,
{
    if !types.contains(t) {
        assert(types.push(t)[types.len() as int] == t);
        assert(types.push(t).take(types.len() as int) =~= types);
    } else {
        assert(types.take(types.len() as int) =~= types);
    }
}

/// Raising a call records the source text of the callee, whatever kind of
/// expression it is (`E(...)`, `m.E(...)`): the type is listed after those
/// found before, which keep their place.
pub proof fn law_raised_call_records_callee(
    n: NodeModel,
    src: Seq<u8>,
    types: Seq<Seq<char>>,
    ctx: Option<Seq<char>>,
    e: NodeModel,
    f: NodeModel,
)
    requires
        n.kind == "raise_statement"@,
        crate::query::first_named(n.children) == Some(e),
        e.kind == "call"@,
        crate::query::child_with_field(e.children, "function"@) == Some(f),
    ensures
        raise_walk(n, src, types, ctx).contains(crate::query::node_text(f, src)),
        raise_walk(n, src, types, ctx).take(types.len() as int) == types,
        raise_walk(n, src, types, ctx).len() <= types.len() + 1,
{
    lemma_add_unique_records(types, crate::query::node_text(f, src));
}

/// Raising a name or a dotted name (`raise E`, `raise m.E`) records its text.
pub proof fn law_raised_name_recorded(
    n: NodeModel,
    src: Seq<u8>,
    types: Seq<Seq<char>>,
    ctx: Option<Seq<char>>,
    e: NodeModel,
)
    requires
        n.kind == "raise_statement"@,
        crate::query::first_named(n.children) == Some(e),
        e.kind == "identifier"@ || e.kind == "attribute"@,
    ensures
        raise_walk(n, src, types, ctx).contains(crate::query::node_text(e, src)),
        raise_walk(n, src, types, ctx).take(types.len() as int) == types,
        raise_walk(n, src, types, ctx).len() <= types.len() + 1,
{
    assert("call"@.len() == 4) by { reveal_strlit("call"); }
    assert("identifier"@.len() == 10) by { reveal_strlit("identifier"); }
    assert("attribute"@.len() == 9) by { reveal_strlit("attribute"); }
    lemma_add_unique_records(types, crate::query::node_text(e, src));
}

/// A bare `raise` inside an `except` clause re-raises, and records, the type
/// that clause catches.
pub proof fn law_bare_raise_records_caught_type(
    n: NodeModel,
    src: Seq<u8>,
    types: Seq<Seq<char>>,
    caught: Seq<char>,
)
    requires
        n.kind == "raise_statement"@,
        crate::query::first_named(n.children) is None,
    ensures
        raise_walk(n, src, types, Some(caught)).contains(caught),
        raise_walk(n, src, types, Some(caught)).take(types.len() as int) == types,
{
    lemma_add_unique_records(types, caught);
}

proof fn lemma_params_args_concat(a: Seq<NodeModel>, b: Seq<NodeModel>, src: Seq<u8>)
    ensures
        params_args(a + b, src) == params_args(a, src) + params_args(b, src),
    decreases b.len(),
{
    if b.len() == 0 {
        assert(a + b =~= a);
        assert(params_args(a, src) + params_args(b, src) =~= params_args(a, src));
    } else {
        lemma_params_args_concat(a, b.drop_last(), src);
        assert((a + b).drop_last() =~= a + b.drop_last());
        assert((a + b).last() == b.last());
        assert(params_args(a + b, src) =~= params_args(a, src) + params_args(b, src));
    }
}

/// A parameter written with a default value, annotated or not, is documented
/// under its name with that default; its entry follows those of the
/// parameters before it.
pub proof fn law_defaults_documented(
    cs: Seq<NodeModel>,
    src: Seq<u8>,
    k: int,
    name: NodeModel,
    value: NodeModel,
)
    requires
        0 <= k < cs.len(),
        cs[k].kind == "default_parameter"@ || cs[k].kind == "typed_default_parameter"@,
        crate::query::child_with_field(cs[k].children, "name"@) == Some(name),
        crate::query::child_with_field(cs[k].children, "value"@) == Some(value),
        !is_self_or_cls(crate::query::node_text(name, src)),
    ensures
        ({
            let i = params_args(cs.take(k), src).len() as int;
            &&& i < params_args(cs, src).len()
            &&& params_args(cs, src)[i].name == crate::query::node_text(name, src)
            &&& params_args(cs, src)[i].default == Some(crate::query::node_text(value, src))
        }),
{
    reveal_strlit("identifier");
    reveal_strlit("typed_parameter");
    reveal_strlit("default_parameter");
    reveal_strlit("typed_default_parameter");
    assert("identifier"@.len() == 10);
    assert("typed_parameter"@.len() == 15);
    assert("default_parameter"@.len() == 17);
    assert("typed_default_parameter"@.len() == 23);
    let c = cs[k];
    let one = seq![c];
    assert(cs =~= cs.take(k) + one + cs.skip(k + 1));
    lemma_params_args_concat(cs.take(k) + one, cs.skip(k + 1), src);
    lemma_params_args_concat(cs.take(k), one, src);
    assert(one.drop_last() =~= Seq::<NodeModel>::empty());
    assert(params_args(one.drop_last(), src) =~= Seq::<ArgDoc>::empty());
    assert(params_args(one, src) =~= param_args(c, src));
    let q = param_args(c, src);
    assert(q.len() == 1);
    assert(q[0].name == crate::query::node_text(name, src));
    assert(q[0].default == Some(crate::query::node_text(value, src)));
    let i = params_args(cs.take(k), src).len() as int;
    assert(params_args(cs, src)[i] == q[0]);
}

/// Whether some decorator among `cs` mentions `dataclass`.
pub open spec fn some_dataclass_decorator(cs: Seq<NodeModel>, src: Seq<u8>) -> bool {
    exists|i: int|
        0 <= i < cs.len() && (#[trigger] cs[i]).kind == "decorator"@ && crate::text::contains(
            crate::query::node_text(cs[i], src),
            "dataclass"@,
        )
}

/// A definition is a dataclass exactly when one of its decorators mentions
/// `dataclass`, however it is written: `@dataclass`, `@dataclasses.dataclass`,
/// `@dataclass(frozen=True)`.
pub proof fn law_dataclass_decorator_recognised(cs: Seq<NodeModel>, src: Seq<u8>)
    ensures
        crate::dataclass::has_dataclass_decorator(cs, src) <==> some_dataclass_decorator(cs, src),
    decreases cs.len(),
{
    if cs.len() > 0 {
        law_dataclass_decorator_recognised(cs.drop_first(), src);
        let d = cs.drop_first();
        if some_dataclass_decorator(d, src) {
            let j = choose|j: int|
                0 <= j < d.len() && (#[trigger] d[j]).kind == "decorator"@ && crate::text::contains(
                    crate::query::node_text(d[j], src),
                    "dataclass"@,
                );
            assert(cs[j + 1] == d[j]);
        }
        if some_dataclass_decorator(cs, src) {
            let j = choose|j: int|
                0 <= j < cs.len() && (#[trigger] cs[j]).kind == "decorator"@ && crate::text::contains(
                    crate::query::node_text(cs[j], src),
                    "dataclass"@,
                );
            if j > 0 {
                assert(d[j - 1] == cs[j]);
            }
        }
    }
}

/// A decorated class with a decorator that mentions `dataclass` gets the
/// dataclass docstring: the summary and its fields.
pub proof fn law_dataclass_gets_attributes(
    node: NodeModel,
    src: Seq<u8>,
    lines: Seq<Seq<char>>,
    cursor: int,
)
    requires
        some_dataclass_decorator(node.children, src),
    ensures
        crate::docgen::class_docstring(Some(node), src, lines, cursor) == class_doc(
            true,
            dataclass_fields(lines, cursor),
        ),
{
    law_dataclass_decorator_recognised(node.children, src);
}

/// A line that the scan of a dataclass body passes over: blank, or a comment.
pub open spec fn is_blank_or_comment(l: Seq<char>) -> bool {
    trim_start(l).len() == 0 || starts_with(trim_start(l), "#"@)
}

proof fn lemma_fields_shift(
    lines: Seq<Seq<char>>,
    j: int,
    b: Seq<char>,
    k: int,
    class_indent: nat,
    acc: Seq<ArgDoc>,
)
    requires
        0 <= j <= lines.len(),
        j <= k,
    ensures
        fields_from(lines.insert(j, b), k + 1, class_indent, acc) == fields_from(
            lines,
            k,
            class_indent,
            acc,
        ),
    decreases lines.len() - k,
{
    let l2 = lines.insert(j, b);
    if k < lines.len() {
        assert(l2[k + 1] == lines[k]);
        match field_doc(trim_start(lines[k])) {
            Some(f) => lemma_fields_shift(lines, j, b, k + 1, class_indent, acc.push(f)),
            None => {},
        }
        lemma_fields_shift(lines, j, b, k + 1, class_indent, acc);
    }
}

proof fn lemma_fields_insert(
    lines: Seq<Seq<char>>,
    j: int,
    b: Seq<char>,
    i: int,
    class_indent: nat,
    acc: Seq<ArgDoc>,
)
    requires
        0 <= i <= j <= lines.len(),
        is_blank_or_comment(b),
    ensures
        fields_from(lines.insert(j, b), i, class_indent, acc) == fields_from(
            lines,
            i,
            class_indent,
            acc,
        ),
    decreases lines.len() - i,
{
    let l2 = lines.insert(j, b);
    if i == j {
        assert(l2[i] == b);
        lemma_fields_shift(lines, j, b, i, class_indent, acc);
    } else {
        assert(l2[i] == lines[i]);
        match field_doc(trim_start(lines[i])) {
            Some(f) => lemma_fields_insert(lines, j, b, i + 1, class_indent, acc.push(f)),
            None => {},
        }
        lemma_fields_insert(lines, j, b, i + 1, class_indent, acc);
    }
}

/// Blank lines and comments in a dataclass body change nothing: inserting
/// one anywhere below the docstring line leaves the fields as they were.
pub proof fn law_blank_lines_keep_fields(
    lines: Seq<Seq<char>>,
    cursor: int,
    j: int,
    b: Seq<char>,
)
    requires
        0 < cursor < j <= lines.len(),
        is_blank_or_comment(b),
    ensures
        dataclass_fields(lines.insert(j, b), cursor) == dataclass_fields(lines, cursor),
{
    let l2 = lines.insert(j, b);
    assert(l2[cursor - 1] == lines[cursor - 1]);
    lemma_fields_insert(lines, j, b, cursor + 1, crate::text::indent_bytes(lines[cursor - 1]), Seq::empty());
}

/// The architecture part of the target triples built for `arch`.
pub open spec fn arch_part(arch: Architecture) -> Seq<char> {
    match arch {
        Architecture::Aarch64 => "aarch64"@,
        Architecture::X86 => "i686"@,
        Architecture::X8664 => "x86_64"@,
    }
}

/// The vendor, system and ABI part of the target triples built for `os`.
pub open spec fn os_part(os: Os) -> Seq<char> {
    match os {
        Os::Mac => "apple-darwin"@,
        Os::Linux => "unknown-linux-gnu"@,
        Os::Windows => "pc-windows-msvc"@,
    }
}

/// The release chosen for a platform is built for that platform: its triple
/// is the platform's architecture, then its system. Every platform has a
/// release except 32-bit x86 macOS.
pub proof fn law_triple_names_platform(os: Os, arch: Architecture)
    ensures
        target_triple_of(os, arch) is None <==> (os == Os::Mac && arch == Architecture::X86),
        target_triple_of(os, arch) matches Some(t) ==> t == arch_part(arch) + "-"@ + os_part(os),
{
    reveal_strlit("-");
    reveal_strlit("aarch64");
    reveal_strlit("i686");
    reveal_strlit("x86_64");
    reveal_strlit("apple-darwin");
    reveal_strlit("unknown-linux-gnu");
    reveal_strlit("pc-windows-msvc");
    reveal_strlit("aarch64-apple-darwin");
    reveal_strlit("x86_64-apple-darwin");
    reveal_strlit("aarch64-unknown-linux-gnu");
    reveal_strlit("x86_64-unknown-linux-gnu");
    reveal_strlit("i686-unknown-linux-gnu");
    reveal_strlit("aarch64-pc-windows-msvc");
    reveal_strlit("x86_64-pc-windows-msvc");
    reveal_strlit("i686-pc-windows-msvc");
    match target_triple_of(os, arch) {
        Some(t) => assert(t =~= arch_part(arch) + "-"@ + os_part(os)),
        None => {},
    }
}

} // verus!

//! The text of PEP 257 docstring bodies, with snippet placeholders `${n:...}`.
use vstd::prelude::*;
use crate::args::{arg_views, collect_args, opt_seq, params_args, ArgDoc, ParamDoc};
use crate::query::{child_by_field_name, child_with_field, node_text, text_of, same_chars};
use crate::raises::vviews;
use crate::syntax::{model, NodeModel, SyntaxNode};
use crate::text::{
    append_chars, chars_of, has_prefix, join, join_chars, starts_with, trim, trim_chars,
};

verus! {

/// The decimal digit `d`.
pub open spec fn digit(d: nat) -> char {
    "0123456789"@[d as int]
}

/// `n` written in decimal.
pub open spec fn decimal(n: nat) -> Seq<char>
    decreases n,
{
    if n < 10 {
        seq![digit(n)]
    } else {
        decimal(n / 10).push(digit(n % 10))
    }
}

/// ` (type)`, or a numbered placeholder for the type when there is no annotation.
pub open spec fn type_part(annotation: Option<Seq<char>>, counter: nat) -> Seq<char> {
    match annotation {
        Some(t) => " ("@ + t + ")"@,
        None => " (${"@ + decimal(counter) + ":type})"@,
    }
}

/// The placeholder number after the type part.
pub open spec fn after_type(annotation: Option<Seq<char>>, counter: nat) -> nat {
    match annotation {
        Some(_) => counter,
        None => counter + 1,
    }
}

pub open spec fn default_part(default: Option<Seq<char>>) -> Seq<char> {
    match default {
        Some(d) => ", optional (default: "@ + d + ")"@,
        None => Seq::empty(),
    }
}

/// The line that documents one parameter or field, numbering its
/// placeholders from `counter`.
pub open spec fn arg_line(a: ArgDoc, counter: nat) -> Seq<char> {
    "    "@ + a.name + type_part(a.annotation, counter) + ": ${"@ + decimal(
        after_type(a.annotation, counter),
    ) + ":Description"@ + default_part(a.default) + ".}"@
}

/// The next free placeholder number after `arg_line(a, counter)`.
pub open spec fn arg_line_next(a: ArgDoc, counter: nat) -> nat {
    after_type(a.annotation, counter) + 1
}

/// The next free placeholder number after the lines of `args`.
pub open spec fn lines_counter(args: Seq<ArgDoc>, counter: nat) -> nat
    decreases args.len(),
{
    if args.len() == 0 {
        counter
    } else {
        arg_line_next(args.last(), lines_counter(args.drop_last(), counter))
    }
}

/// One line for each of `args`, numbering placeholders from `counter`.
pub open spec fn arg_lines(args: Seq<ArgDoc>, counter: nat) -> Seq<Seq<char>>
    decreases args.len(),
{
    if args.len() == 0 {
        Seq::empty()
    } else {
        arg_lines(args.drop_last(), counter).push(
            arg_line(args.last(), lines_counter(args.drop_last(), counter)),
        )
    }
}

/// The `Args:` section, or nothing when there are no arguments.
pub open spec fn args_section(args: Seq<ArgDoc>, counter: nat) -> Seq<Seq<char>> {
    if args.len() == 0 {
        Seq::empty()
    } else {
        seq![""@, "Args:"@] + arg_lines(args, counter)
    }
}

/// A return annotation that is documented: present, not empty, not `None`.
pub open spec fn has_return_type(rt: Option<Seq<char>>) -> bool {
    match rt {
        Some(r) => r != "None"@ && r != "none"@ && r.len() > 0,
        None => false,
    }
}

pub open spec fn returns_section(rt: Option<Seq<char>>, counter: nat) -> Seq<Seq<char>> {
    if has_return_type(rt) {
        seq![""@, "Returns:"@, "    "@ + rt.unwrap() + ": ${"@ + decimal(counter) + ":Description.}"@]
    } else {
        Seq::empty()
    }
}

pub open spec fn returns_counter(rt: Option<Seq<char>>, counter: nat) -> nat {
    if has_return_type(rt) {
        counter + 1
    } else {
        counter
    }
}

pub open spec fn raise_line(t: Seq<char>, counter: nat) -> Seq<char> {
    "    "@ + t + ": ${"@ + decimal(counter) + ":Description.}"@
}

pub open spec fn raise_lines(raises: Seq<Seq<char>>, counter: nat) -> Seq<Seq<char>> {
    Seq::new(raises.len(), |i: int| raise_line(raises[i], counter + i as nat))
}

pub open spec fn raises_section(raises: Seq<Seq<char>>, counter: nat) -> Seq<Seq<char>> {
    if raises.len() == 0 {
        Seq::empty()
    } else {
        seq![""@, "Raises:"@] + raise_lines(raises, counter)
    }
}

/// The docstring body of a function: a one-line summary placeholder when
/// there is nothing else to document, otherwise a summary line followed by
/// the `Args:`, `Returns:` and `Raises:` sections that apply, the first line
/// starting with a newline.
pub open spec fn function_doc(args: Seq<ArgDoc>, rt: Option<Seq<char>>, raises: Seq<Seq<char>>) -> Seq<
    char,
> {
    if args.len() == 0 && !has_return_type(rt) && raises.len() == 0 {
        "${1:Summary.}"@
    } else {
        let c1 = lines_counter(args, 2);
        let c2 = returns_counter(rt, c1);
        join(
            seq!["\n${1:Summary.}"@] + args_section(args, 2) + returns_section(rt, c1)
                + raises_section(raises, c2),
            "\n"@,
        )
    }
}

/// The docstring body of a class: a one-line summary placeholder, or for a
/// dataclass a summary line followed by an `Attributes:` section when it has fields.
pub open spec fn class_doc(dataclass: bool, fields: Seq<ArgDoc>) -> Seq<char> {
    if dataclass {
        join(
            seq!["\n${1:Summary.}"@] + if fields.len() > 0 {
                seq![""@, "Attributes:"@] + arg_lines(fields, 2)
            } else {
                Seq::empty()
            },
            "\n"@,
        )
    } else {
        "${1:Summary.}"@
    }
}

/// `s` with every leading copy of `p` removed.
pub open spec fn strip_prefix_all(s: Seq<char>, p: Seq<char>) -> Seq<char>
    decreases s.len(),
{
    if p.len() > 0 && starts_with(s, p) {
        strip_prefix_all(s.skip(p.len() as int), p)
    } else {
        s
    }
}

/// The return annotation of a function definition, without `->` and surrounding space.
pub open spec fn return_type_of(node: NodeModel, src: Seq<u8>) -> Option<Seq<char>> {
    match child_with_field(node.children, "return_type"@) {
        Some(r) => Some(trim(strip_prefix_all(node_text(r, src), "->"@))),
        None => None,
    }
}

/// The docstring of a function definition node, or `None` when it has no parameter list.
pub open spec fn function_docstring(node: NodeModel, src: Seq<u8>, raises: Seq<Seq<char>>) -> Option<
    Seq<char>,
> {
    match child_with_field(node.children, "parameters"@) {
        Some(p) => Some(function_doc(params_args(p.children, src), return_type_of(node, src), raises)),
        None => None,
    }
}

pub proof fn lemma_lines_counter_bound(args: Seq<ArgDoc>, counter: nat)
    ensures
        counter <= lines_counter(args, counter) <= counter + 2 * args.len(),
    decreases args.len(),
{
    if args.len() > 0 {
        lemma_lines_counter_bound(args.drop_last(), counter);
    }
}

/// The digits of `n`.
pub fn decimal_chars(n: u128) -> (r: Vec<char>)
    ensures
        r@ == decimal(n as nat),
    decreases n,
{
    let digits = chars_of("0123456789");
    proof {
        reveal_strlit("0123456789");
    }
    if n < 10 {
        let mut v: Vec<char> = Vec::new();
        v.push(digits[n as usize]);
        assert(v@ =~= seq![digit(n as nat)]);
        v
    } else {
        let mut v = decimal_chars(n / 10);
        v.push(digits[(n % 10) as usize]);
        v
    }
}

fn push_str(v: &mut Vec<char>, s: &str)
    ensures
        final(v)@ == old(v)@ + s@,
{
    let c = chars_of(s);
    append_chars(v, c.as_slice());
}

/// The line that documents one parameter; `counter` is the next free
/// placeholder number and is advanced past the ones used.
pub fn format_arg_line(
    name: &[char],
    annotation: Option<&Vec<char>>,
    default: Option<&Vec<char>>,
    counter: &mut u128,
) -> (line: Vec<char>)
    requires
        *old(counter) + 2 <= u128::MAX,
    ensures
        ({
            let a = ArgDoc {
                name: name@,
                annotation: match annotation {
                    Some(t) => Some(t@),
                    None => None,
                },
                default: match default {
                    Some(d) => Some(d@),
                    None => None,
                },
            };
            &&& line@ == arg_line(a, *old(counter) as nat)
            &&& *final(counter) == arg_line_next(a, *old(counter) as nat)
        }),
{
    let ghost ann = match annotation {
        Some(t) => Some(t@),
        None => None,
    };
    let mut ty: Vec<char> = Vec::new();
    match annotation {
        Some(t) => {
            push_str(&mut ty, " (");
            append_chars(&mut ty, t.as_slice());
            push_str(&mut ty, ")");
        },
        None => {
            let n = *counter;
            *counter = *counter + 1;
            push_str(&mut ty, " (${");
            let d = decimal_chars(n);
            append_chars(&mut ty, d.as_slice());
            push_str(&mut ty, ":type})");
        },
    }
    assert(ty@ =~= type_part(ann, *old(counter) as nat));
    let mut dflt: Vec<char> = Vec::new();
    match default {
        Some(d) => {
            push_str(&mut dflt, ", optional (default: ");
            append_chars(&mut dflt, d.as_slice());
            push_str(&mut dflt, ")");
        },
        None => {},
    }
    let desc = *counter;
    *counter = *counter + 1;
    let mut line: Vec<char> = Vec::new();
    push_str(&mut line, "    ");
    append_chars(&mut line, name);
    append_chars(&mut line, ty.as_slice());
    push_str(&mut line, ": ${");
    let d = decimal_chars(desc);
    append_chars(&mut line, d.as_slice());
    push_str(&mut line, ":Description");
    append_chars(&mut line, dflt.as_slice());
    push_str(&mut line, ".}");
    line
}

/// The line that documents one dataclass field; the same shape as a parameter line.
pub fn format_field_line(
    name: &[char],
    annotation: Option<&Vec<char>>,
    default: Option<&Vec<char>>,
    counter: &mut u128,
) -> (line: Vec<char>)
    requires
        *old(counter) + 2 <= u128::MAX,
    ensures
        ({
            let a = ArgDoc {
                name: name@,
                annotation: match annotation {
                    Some(t) => Some(t@),
                    None => None,
                },
                default: match default {
                    Some(d) => Some(d@),
                    None => None,
                },
            };
            &&& line@ == arg_line(a, *old(counter) as nat)
            &&& *final(counter) == arg_line_next(a, *old(counter) as nat)
        }),
{
    format_arg_line(name, annotation, default, counter)
}

fn opt_ref(o: &Option<Vec<char>>) -> (r: Option<&Vec<char>>)
    ensures
        match r {
            Some(v) => opt_seq(*o) == Some(v@),
            None => opt_seq(*o) is None,
        },
{
    match o {
        Some(v) => Some(v),
        None => None,
    }
}

/// Pushes one line for each of `args` (dataclass fields when `as_fields`),
/// numbering placeholders from `counter`.
fn push_arg_lines(lines: &mut Vec<Vec<char>>, args: &Vec<ParamDoc>, as_fields: bool, counter: &mut u128)
    requires
        *old(counter) + 2 * args@.len() + 2 <= u128::MAX,
    ensures
        vviews(final(lines)@) == vviews(old(lines)@) + arg_lines(arg_views(args@), *old(counter) as nat),
        *final(counter) == lines_counter(arg_views(args@), *old(counter) as nat),
{
    let ghost av = arg_views(args@);
    let ghost start = vviews(lines@);
    let ghost c0 = *counter as nat;
    assert(av.take(0) =~= Seq::<ArgDoc>::empty());
    assert(start + Seq::<Seq<char>>::empty() =~= start);
    let mut i: usize = 0;
    while i < args.len()
        invariant
            av == arg_views(args@),
            0 <= i <= args@.len(),
            c0 + 2 * args@.len() + 2 <= u128::MAX,
            vviews(lines@) == start + arg_lines(av.take(i as int), c0),
            *counter == lines_counter(av.take(i as int), c0),
        decreases args.len() - i,
    {
        proof {
            assert(av.take(i + 1).drop_last() =~= av.take(i as int));
            assert(av.take(i + 1).last() == av[i as int]);
            lemma_lines_counter_bound(av.take(i as int), c0);
        }
        let a = &args[i];
        let line = if as_fields {
            format_field_line(a.name.as_slice(), opt_ref(&a.annotation), opt_ref(&a.default), counter)
        } else {
            format_arg_line(a.name.as_slice(), opt_ref(&a.annotation), opt_ref(&a.default), counter)
        };
        let ghost prev = vviews(lines@);
        lines.push(line);
        assert(vviews(lines@) =~= prev.push(line@));
        assert(vviews(lines@) =~= start + arg_lines(av.take(i + 1), c0));
        i += 1;
    }
    assert(av.take(args@.len() as int) =~= av);
}

/// Pushes the `Args:` section when there are arguments.
pub fn append_args_section(lines: &mut Vec<Vec<char>>, args: &Vec<ParamDoc>, counter: &mut u128)
    requires
        *old(counter) + 2 * args@.len() + 2 <= u128::MAX,
    ensures
        vviews(final(lines)@) == vviews(old(lines)@) + args_section(arg_views(args@), *old(counter) as nat),
        *final(counter) == lines_counter(arg_views(args@), *old(counter) as nat),
{
    if args.len() == 0 {
        assert(vviews(lines@) + Seq::<Seq<char>>::empty() =~= vviews(lines@));
        return ;
    }
    let ghost start = vviews(lines@);
    lines.push(chars_of(""));
    lines.push(chars_of("Args:"));
    assert(vviews(lines@) =~= start + seq![""@, "Args:"@]);
    push_arg_lines(lines, args, false, counter);
    assert(vviews(lines@) =~= start + args_section(arg_views(args@), *old(counter) as nat));
}

/// Whether a return annotation is documented.
fn is_documented_return(rt: &Vec<char>) -> (r: bool)
    ensures
        r == has_return_type(Some(rt@)),
{
    let none_upper = chars_of("None");
    let none_lower = chars_of("none");
    !same_chars(rt.as_slice(), none_upper.as_slice()) && !same_chars(
        rt.as_slice(),
        none_lower.as_slice(),
    ) && rt.len() > 0
}

/// `s` with every leading `->` removed.
fn strip_arrows(s: Vec<char>) -> (r: Vec<char>)
    ensures
        r@ == strip_prefix_all(s@, "->"@),
    decreases s@.len(),
{
    let arrow = chars_of("->");
    proof {
        reveal_strlit("->");
    }
    if has_prefix(s.as_slice(), arrow.as_slice()) {
        let rest = crate::text::copy_range(s.as_slice(), 2, s.len());
        assert(rest@ =~= s@.skip(2));
        strip_arrows(rest)
    } else {
        s
    }
}

/// The function docstring for these arguments, return annotation and raised types.
pub fn function_doc_text(args: &Vec<ParamDoc>, return_type: &Option<Vec<char>>, raise_types: &Vec<Vec<char>>) -> (r: Vec<char>)
    ensures
        r@ == function_doc(arg_views(args@), opt_seq(*return_type), vviews(raise_types@)),
{
    let ghost av = arg_views(args@);
    let ghost rt = opt_seq(*return_type);
    let ghost rs = vviews(raise_types@);
    let has_return = match return_type {
        Some(r) => is_documented_return(r),
        None => false,
    };
    if args.len() == 0 && !has_return && raise_types.len() == 0 {
        return chars_of("${1:Summary.}");
    }
    let mut lines: Vec<Vec<char>> = Vec::new();
    lines.push(chars_of("\n${1:Summary.}"));
    assert(vviews(lines@) =~= seq!["\n${1:Summary.}"@]);
    let mut counter: u128 = 2;
    let n_args = args.len();
    let n_raises = raise_types.len();
    append_args_section(&mut lines, args, &mut counter);
    proof {
        lemma_lines_counter_bound(av, 2);
    }
    let ghost c1 = counter as nat;
    let ghost after_args = vviews(lines@);
    if has_return {
        lines.push(chars_of(""));
        lines.push(chars_of("Returns:"));
        let mut l: Vec<char> = Vec::new();
        push_str(&mut l, "    ");
        match return_type {
            Some(r) => append_chars(&mut l, r.as_slice()),
            None => {},
        }
        push_str(&mut l, ": ${");
        let d = decimal_chars(counter);
        append_chars(&mut l, d.as_slice());
        push_str(&mut l, ":Description.}");
        lines.push(l);
        counter = counter + 1;
    }
    assert(vviews(lines@) =~= after_args + returns_section(rt, c1));
    let ghost c2 = counter as nat;
    let ghost after_returns = vviews(lines@);
    if raise_types.len() > 0 {
        lines.push(chars_of(""));
        lines.push(chars_of("Raises:"));
        let ghost base = vviews(lines@);
        let mut i: usize = 0;
        while i < raise_types.len()
            invariant
                rs == vviews(raise_types@),
                0 <= i <= raise_types@.len(),
                n_raises == raise_types@.len(),
                c2 + n_raises + 1 <= u128::MAX,
                counter == c2 + i,
                vviews(lines@) == base + Seq::new(i as nat, |k: int| raise_line(rs[k], c2 + k as nat)),
            decreases raise_types.len() - i,
        {
            let mut l: Vec<char> = Vec::new();
            push_str(&mut l, "    ");
            append_chars(&mut l, raise_types[i].as_slice());
            push_str(&mut l, ": ${");
            let d = decimal_chars(counter);
            append_chars(&mut l, d.as_slice());
            push_str(&mut l, ":Description.}");
            let ghost prev = vviews(lines@);
            assert(rs[i as int] == raise_types@[i as int]@);
            lines.push(l);
            assert(vviews(lines@) =~= prev.push(l@));
            assert(vviews(lines@) =~= base + Seq::new((i + 1) as nat, |k: int| raise_line(rs[k], c2 + k as nat)));
            counter = counter + 1;
            i += 1;
        }
        assert(vviews(lines@) =~= after_returns + raises_section(rs, c2));
    } else {
        assert(vviews(lines@) =~= after_returns + raises_section(rs, c2));
    }
    let newline = chars_of("\n");
    assert(lines@.map_values(|p: Vec<char>| p@) =~= vviews(lines@));
    assert(vviews(lines@) =~= seq!["\n${1:Summary.}"@] + args_section(av, 2) + returns_section(rt, c1)
        + raises_section(rs, c2));
    join_chars(&lines, newline.as_slice())
}

/// The docstring of a function definition node, or `None` when it has no parameter list.
pub fn build_function_docstring(node: &SyntaxNode, src: &[u8], raise_types: &Vec<Vec<char>>) -> (r: Option<Vec<char>>)
    ensures
        match r {
            Some(d) => function_docstring(model(*node), src@, vviews(raise_types@)) == Some(d@),
            None => function_docstring(model(*node), src@, vviews(raise_types@)) is None,
        },
{
    let params_node = match child_by_field_name(node, "parameters") {
        Some(p) => p,
        None => {
            return None;
        },
    };
    let return_node = child_by_field_name(node, "return_type");
    let args = collect_args(params_node, src);
    let return_type = match return_node {
        Some(n) => {
            let t = text_of(n, src);
            let stripped = strip_arrows(t);
            Some(trim_chars(stripped.as_slice()))
        },
        None => None,
    };
    Some(function_doc_text(&args, &return_type, raise_types))
}

/// The docstring of a class: a one-line summary placeholder, or for a
/// dataclass the summary and its fields.
pub fn class_doc_text(dataclass: bool, fields: &Vec<ParamDoc>) -> (r: Vec<char>)
    ensures
        r@ == class_doc(dataclass, arg_views(fields@)),
{
    if !dataclass {
        return chars_of("${1:Summary.}");
    }
    let mut lines: Vec<Vec<char>> = Vec::new();
    lines.push(chars_of("\n${1:Summary.}"));
    assert(vviews(lines@) =~= seq!["\n${1:Summary.}"@]);
    let ghost head = vviews(lines@);
    if fields.len() > 0 {
        lines.push(chars_of(""));
        lines.push(chars_of("Attributes:"));
        let ghost mid = vviews(lines@);
        assert(mid =~= head + seq![""@, "Attributes:"@]);
        let mut counter: u128 = 2;
        push_arg_lines(&mut lines, fields, true, &mut counter);
        assert(vviews(lines@) =~= head + (seq![""@, "Attributes:"@] + arg_lines(arg_views(fields@), 2)));
    } else {
        assert(vviews(lines@) =~= head + Seq::<Seq<char>>::empty());
    }
    let newline = chars_of("\n");
    assert(lines@.map_values(|p: Vec<char>| p@) =~= vviews(lines@));
    join_chars(&lines, newline.as_slice())
}

} // verus!

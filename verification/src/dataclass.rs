//! Dataclass fields, read from the lines below the class header.
use vstd::prelude::*;
use crate::args::{arg_views, ArgDoc, ParamDoc};
use crate::query::{kind_is, node_text, text_of};
use crate::syntax::{lemma_models, model, models, NodeModel, SyntaxNode};
use crate::text::{
    chars_of, contains, copy_range, has_prefix, has_substring, indent_bytes, indent_of, starts_with,
    trim, trim_chars, trim_start, trim_start_chars, views,
};

verus! {

/// Position of the first `=` outside brackets, scanning from `i` with the
/// bracket depth so far being `depth`.
pub open spec fn toplevel_eq_from(s: Seq<char>, i: int, depth: int) -> Option<int>
    decreases s.len() - i,
{
    if i < 0 || i >= s.len() {
        None
    } else {
        let c = s[i];
        if c == '[' || c == '(' || c == '{' {
            toplevel_eq_from(s, i + 1, depth + 1)
        } else if c == ']' || c == ')' || c == '}' {
            toplevel_eq_from(s, i + 1, depth - 1)
        } else if c == '=' && depth == 0 {
            Some(i)
        } else {
            toplevel_eq_from(s, i + 1, depth)
        }
    }
}

/// Position of the first `=` at bracket depth 0, so that the `=` inside an
/// annotation such as `Annotated[int, Field(ge=0)]` is passed over.
pub open spec fn toplevel_eq(s: Seq<char>) -> Option<int> {
    toplevel_eq_from(s, 0, 0)
}

/// Position of the first `c` at or after `i`.
pub open spec fn index_of_from(s: Seq<char>, c: char, i: int) -> Option<int>
    decreases s.len() - i,
{
    if i < 0 || i >= s.len() {
        None
    } else if s[i] == c {
        Some(i)
    } else {
        index_of_from(s, c, i + 1)
    }
}

/// The field declared by a line of a dataclass body (without its indentation):
/// `name: type` or `name: type = default`. `None` when the line has no `:`,
/// or when the annotation is a `ClassVar` or `InitVar`.
pub open spec fn field_doc(t: Seq<char>) -> Option<ArgDoc> {
    match index_of_from(t, ':', 0) {
        None => None,
        Some(ci) => {
            let name = trim(t.take(ci));
            let rest = t.skip(ci + 1);
            let type_str = match toplevel_eq(rest) {
                Some(e) => trim(rest.take(e)),
                None => trim(rest),
            };
            let default = match toplevel_eq(rest) {
                Some(e) => Some(trim(rest.skip(e + 1))),
                None => None,
            };
            if type_str.len() > 0 && (starts_with(type_str, "ClassVar"@) || starts_with(
                type_str,
                "InitVar"@,
            )) {
                None
            } else {
                Some(
                    ArgDoc {
                        name,
                        annotation: if type_str.len() > 0 {
                            Some(type_str)
                        } else {
                            None
                        },
                        default,
                    },
                )
            }
        },
    }
}

/// Fields declared from line `i` on, after the ones in `acc`: lines indented
/// one level (4 bytes) deeper than the class, up to the first line at the
/// class's level or the first method. Blank lines and comments are skipped.
pub open spec fn fields_from(lines: Seq<Seq<char>>, i: int, class_indent: nat, acc: Seq<ArgDoc>) -> Seq<
    ArgDoc,
>
    decreases lines.len() - i,
{
    if i < 0 || i >= lines.len() {
        acc
    } else {
        let line = lines[i];
        let t = trim_start(line);
        if t.len() == 0 || starts_with(t, "#"@) {
            fields_from(lines, i + 1, class_indent, acc)
        } else if indent_bytes(line) <= class_indent {
            acc
        } else if indent_bytes(line) != class_indent + 4 {
            fields_from(lines, i + 1, class_indent, acc)
        } else if starts_with(t, "def "@) || starts_with(t, "async def "@) {
            acc
        } else {
            match field_doc(t) {
                Some(f) => fields_from(lines, i + 1, class_indent, acc.push(f)),
                None => fields_from(lines, i + 1, class_indent, acc),
            }
        }
    }
}

/// The fields of the dataclass whose docstring line is `cursor`.
pub open spec fn dataclass_fields(lines: Seq<Seq<char>>, cursor: int) -> Seq<ArgDoc> {
    if cursor == 0 || cursor >= lines.len() {
        Seq::empty()
    } else {
        fields_from(lines, cursor + 1, indent_bytes(lines[cursor - 1]), Seq::empty())
    }
}

/// Some child of a decorated definition is a decorator whose text mentions
/// `dataclass` (as in `@dataclass` or `@dataclasses.dataclass`).
pub open spec fn has_dataclass_decorator(cs: Seq<NodeModel>, src: Seq<u8>) -> bool
    decreases cs.len(),
{
    if cs.len() == 0 {
        false
    } else {
        (cs[0].kind == "decorator"@ && contains(node_text(cs[0], src), "dataclass"@))
            || has_dataclass_decorator(cs.drop_first(), src)
    }
}

/// Finds the first `=` at bracket depth 0, skipping `=` inside annotations
/// like `Annotated[int, Field(ge=0)]`; the position is counted in characters.
pub fn find_toplevel_eq(s: &[char]) -> (r: Option<usize>)
    ensures
        match r {
            Some(i) => toplevel_eq(s@) == Some(i as int) && i < s@.len(),
            None => toplevel_eq(s@) is None,
        },
{
    let n = s.len();
    let mut depth: i128 = 0;
    let mut i: usize = 0;
    while i < n
        invariant
            n == s@.len(),
            0 <= i <= n,
            -(i as int) <= depth <= i as int,
            toplevel_eq(s@) == toplevel_eq_from(s@, i as int, depth as int),
        decreases n - i,
    {
        let c = s[i];
        if c == '[' || c == '(' || c == '{' {
            depth = depth + 1;
        } else if c == ']' || c == ')' || c == '}' {
            depth = depth - 1;
        } else if c == '=' && depth == 0 {
            return Some(i);
        }
        i += 1;
    }
    None
}

pub fn index_of_char(s: &[char], c: char) -> (r: Option<usize>)
    ensures
        match r {
            Some(i) => index_of_from(s@, c, 0) == Some(i as int) && i < s@.len(),
            None => index_of_from(s@, c, 0) is None,
        },
{
    let mut i: usize = 0;
    while i < s.len()
        invariant
            0 <= i <= s@.len(),
            index_of_from(s@, c, 0) == index_of_from(s@, c, i as int),
        decreases s.len() - i,
    {
        if s[i] == c {
            return Some(i);
        }
        i += 1;
    }
    None
}

/// The field a dataclass body line declares, as `field_doc` describes.
fn parse_field(trimmed: &[char]) -> (r: Option<ParamDoc>)
    ensures
        match r {
            Some(f) => field_doc(trimmed@) == Some(f.view()),
            None => field_doc(trimmed@) is None,
        },
{
    let colon_pos = match index_of_char(trimmed, ':') {
        Some(p) => p,
        None => {
            return None;
        },
    };
    let len = trimmed.len();
    let head = copy_range(trimmed, 0, colon_pos);
    let name = trim_chars(head.as_slice());
    let rest = copy_range(trimmed, colon_pos + 1, len);
    assert(head@ =~= trimmed@.take(colon_pos as int));
    assert(rest@ =~= trimmed@.skip(colon_pos + 1));
    let (type_str, default) = match find_toplevel_eq(rest.as_slice()) {
        Some(eq_pos) => {
            let before = copy_range(rest.as_slice(), 0, eq_pos);
            let after = copy_range(rest.as_slice(), eq_pos + 1, rest.len());
            assert(before@ =~= rest@.take(eq_pos as int));
            assert(after@ =~= rest@.skip(eq_pos + 1));
            (trim_chars(before.as_slice()), Some(trim_chars(after.as_slice())))
        },
        None => (trim_chars(rest.as_slice()), None),
    };
    if type_str.len() > 0 {
        let class_var = chars_of("ClassVar");
        let init_var = chars_of("InitVar");
        if has_prefix(type_str.as_slice(), class_var.as_slice()) || has_prefix(
            type_str.as_slice(),
            init_var.as_slice(),
        ) {
            return None;
        }
        Some(ParamDoc { name, annotation: Some(type_str), default })
    } else {
        Some(ParamDoc { name, annotation: None, default })
    }
}

/// Returns (name, type annotation, default value) for each field in the
/// dataclass body below the docstring line.
pub fn collect_dataclass_fields_from_lines(all_lines: &[&str], cursor_line: usize) -> (fields: Vec<
    ParamDoc,
>)
    ensures
        arg_views(fields@) == dataclass_fields(views(all_lines@), cursor_line as int),
{
    let ghost ls = views(all_lines@);
    let mut fields: Vec<ParamDoc> = Vec::new();
    if cursor_line == 0 || cursor_line >= all_lines.len() {
        assert(arg_views(fields@) =~= Seq::<ArgDoc>::empty());
        return fields;
    }
    assert(ls[cursor_line - 1] == all_lines@[cursor_line - 1]@);
    let class_indent = indent_of(all_lines[cursor_line - 1]);
    let hash = chars_of("#");
    let def_kw = chars_of("def ");
    let async_kw = chars_of("async def ");
    let mut i = cursor_line + 1;
    assert(arg_views(fields@) =~= Seq::<ArgDoc>::empty());
    while i < all_lines.len()
        invariant_except_break
            fields_from(ls, cursor_line + 1, class_indent as nat, Seq::empty()) == fields_from(
                ls,
                i as int,
                class_indent as nat,
                arg_views(fields@),
            ),
        invariant
            ls == views(all_lines@),
            cursor_line + 1 <= i,
            hash@ == "#"@,
            def_kw@ == "def "@,
            async_kw@ == "async def "@,
        ensures
            fields_from(ls, cursor_line + 1, class_indent as nat, Seq::empty()) == arg_views(
                fields@,
            ),
        decreases all_lines.len() - i,
    {
        assert(ls[i as int] == all_lines@[i as int]@);
        let line = chars_of(all_lines[i]);
        let trimmed = trim_start_chars(line.as_slice());
        if trimmed.len() == 0 || has_prefix(trimmed.as_slice(), hash.as_slice()) {
            i += 1;
            continue;
        }
        let line_indent = indent_of(all_lines[i]);
        if line_indent <= class_indent {
            break;
        }
        if line_indent < 4 || line_indent - 4 != class_indent {
            i += 1;
            continue;
        }
        if has_prefix(trimmed.as_slice(), def_kw.as_slice()) || has_prefix(
            trimmed.as_slice(),
            async_kw.as_slice(),
        ) {
            break;
        }
        match parse_field(trimmed.as_slice()) {
            Some(f) => {
                let ghost prev = arg_views(fields@);
                fields.push(f);
                assert(arg_views(fields@) =~= prev.push(f.view()));
            },
            None => {},
        }
        i += 1;
    }
    fields
}

/// Whether a decorated definition carries a decorator that mentions `dataclass`.
pub fn is_dataclass_decorated(decorated_node: &SyntaxNode, src: &[u8]) -> (r: bool)
    ensures
        r == has_dataclass_decorator(model(*decorated_node).children, src@),
{
    let ghost ms = models(decorated_node.children@);
    proof {
        lemma_models(decorated_node.children@);
        assert(ms.skip(0) =~= ms);
    }
    let word = chars_of("dataclass");
    let mut i: usize = 0;
    while i < decorated_node.children.len()
        invariant
            ms == models(decorated_node.children@),
            ms.len() == decorated_node.children@.len(),
            forall|k: int|
                0 <= k < ms.len() ==> #[trigger] ms[k] == model(decorated_node.children@[k]),
            0 <= i <= ms.len(),
            word@ == "dataclass"@,
            has_dataclass_decorator(ms, src@) == has_dataclass_decorator(ms.skip(i as int), src@),
        decreases decorated_node.children.len() - i,
    {
        assert(ms.skip(i as int)[0] == ms[i as int]);
        assert(ms.skip(i as int).drop_first() =~= ms.skip(i + 1));
        let child = &decorated_node.children[i];
        if kind_is(child, "decorator") {
            let text = text_of(child, src);
            if has_substring(text.as_slice(), word.as_slice()) {
                return true;
            }
        }
        i += 1;
    }
    false
}

} // verus!

//! The completion offered when `"""` is typed on the line below a definition.
use vstd::prelude::*;
use crate::dataclass::index_of_from;
use crate::definition::{definition_above, find_definition_above};
use crate::docgen::generated_docstring;
use crate::query::same_chars;
use crate::raises::vviews;
use crate::text::{
    append_chars, chars_of, copy_range, indent_bytes, indent_of, join, join_chars, string_of, trim,
    trim_chars, views,
};
use crate::ts::PythonParser;

verus! {

/// `s` without one trailing carriage return.
pub open spec fn strip_cr(s: Seq<char>) -> Seq<char> {
    if s.len() > 0 && s.last() == '\r' {
        s.drop_last()
    } else {
        s
    }
}

/// The lines of `s` as `str::lines` yields them: split at `\n`, a `\r`
/// before the `\n` dropped, and no empty line after a final `\n`.
pub open spec fn lines_of(s: Seq<char>) -> Seq<Seq<char>>
    decreases s.len(),
{
    if s.len() == 0 {
        Seq::empty()
    } else {
        match index_of_from(s, '\n', 0) {
            Some(i) => if 0 <= i < s.len() {
                seq![strip_cr(s.take(i))] + lines_of(s.skip(i + 1))
            } else {
                seq![s]
            },
            None => seq![s],
        }
    }
}

/// `n` spaces.
pub open spec fn spaces(n: nat) -> Seq<char> {
    Seq::new(n, |i: int| ' ')
}

/// A snippet line: indented, unless it is empty.
pub open spec fn indent_line(l: Seq<char>, indent: Seq<char>) -> Seq<char> {
    if l.len() == 0 {
        Seq::empty()
    } else {
        indent + l
    }
}

/// The text inserted for a docstring body, closed by `"""`: a one-line body
/// (no leading newline) is closed on the same line; otherwise each non-empty
/// line is indented like the opening quotes and the closing quotes go on a
/// line of their own.
pub open spec fn snippet_of(body: Seq<char>, indent_len: nat) -> Seq<char> {
    if !(body.len() > 0 && body[0] == '\n') {
        body + "\"\"\""@
    } else {
        let indent = spaces(indent_len);
        let ls = lines_of(body);
        join(Seq::new(ls.len(), |i: int| indent_line(ls[i], indent)), "\n"@) + "\n"@ + indent
            + "\"\"\""@
    }
}

/// The text of `line` before byte offset `cursor_char` (or all of it, when
/// the offset lies past the end).
pub open spec fn text_before(line: Seq<char>, cursor_char: nat) -> Seq<char> {
    let b = vstd::utf8::encode_utf8(line);
    let m = if cursor_char < b.len() {
        cursor_char
    } else {
        b.len()
    };
    vstd::utf8::decode_utf8(b.take(m as int))
}

/// The cursor splits `line` at a character boundary, as slicing it there requires.
pub open spec fn cursor_on_boundary(line: Seq<char>, cursor_char: nat) -> bool {
    let b = vstd::utf8::encode_utf8(line);
    vstd::utf8::is_char_boundary(b, if cursor_char < b.len() { cursor_char as int } else { b.len() as int })
}

/// What `docstring_snippet` returns: a snippet only when the text before the
/// cursor is `"""` (up to surrounding whitespace), a definition lies above,
/// and a docstring can be generated for it.
pub open spec fn snippet_for(lines: Seq<Seq<char>>, cursor_line: int, cursor_char: nat) -> Option<
    Seq<char>,
> {
    if cursor_line < 0 || cursor_line >= lines.len() {
        None
    } else if trim(text_before(lines[cursor_line], cursor_char)) != "\"\"\""@ {
        None
    } else {
        match definition_above(lines, cursor_line) {
            None => None,
            Some(def) => match generated_docstring(def, lines, cursor_line) {
                None => None,
                Some(body) => Some(snippet_of(body, indent_bytes(lines[cursor_line]))),
            },
        }
    }
}

/// Where the replaced text ends: after a closing `"""` that the editor paired
/// with the one typed, or at the cursor.
pub open spec fn replacement_end_of(line: Seq<char>, cursor_char: nat) -> nat {
    let b = vstd::utf8::encode_utf8(line);
    if cursor_char + 3 <= b.len() && b[cursor_char as int] == 34 && b[cursor_char + 1int] == 34
        && b[cursor_char + 2int] == 34 {
        cursor_char + 3
    } else {
        cursor_char
    }
}

/// The lines of `s`, as `str::lines` yields them.
pub fn split_lines(s: &[char]) -> (r: Vec<Vec<char>>)
    ensures
        vviews(r@) == lines_of(s@),
{
    let mut out: Vec<Vec<char>> = Vec::new();
    let mut pos: usize = 0;
    let n = s.len();
    assert(s@.skip(0) =~= s@);
    assert(vviews(out@) =~= Seq::<Seq<char>>::empty());
    while pos < n
        invariant
            n == s@.len(),
            0 <= pos <= n,
            vviews(out@) + lines_of(s@.skip(pos as int)) == lines_of(s@),
        decreases n - pos,
    {
        let rest = copy_range(s, pos, n);
        assert(rest@ =~= s@.skip(pos as int));
        let ghost prev = vviews(out@);
        match crate::dataclass::index_of_char(rest.as_slice(), '\n') {
            Some(i) => {
                let mut line = copy_range(rest.as_slice(), 0, i);
                assert(line@ =~= rest@.take(i as int));
                if line.len() > 0 && line[line.len() - 1] == '\r' {
                    line.pop();
                    assert(line@ =~= rest@.take(i as int).drop_last());
                }
                out.push(line);
                assert(rest@.skip(i + 1) =~= s@.skip(pos + i + 1));
                assert(vviews(out@) =~= prev.push(strip_cr(rest@.take(i as int))));
                assert(vviews(out@) + lines_of(s@.skip(pos + i + 1)) =~= prev + lines_of(rest@));
                pos = pos + i + 1;
            },
            None => {
                out.push(rest);
                assert(vviews(out@) =~= prev + lines_of(s@.skip(pos as int)));
                assert(s@.skip(n as int) =~= Seq::<char>::empty());
                pos = n;
            },
        }
    }
    assert(s@.skip(n as int) =~= Seq::<char>::empty());
    assert(vviews(out@) + Seq::<Seq<char>>::empty() =~= vviews(out@));
    out
}

/// The snippet text for a docstring body, indented by `indent_len` spaces.
pub fn snippet_text(body: &[char], indent_len: usize) -> (r: Vec<char>)
    ensures
        r@ == snippet_of(body@, indent_len as nat),
{
    let quotes = chars_of("\"\"\"");
    if !(body.len() > 0 && body[0] == '\n') {
        let mut r: Vec<char> = Vec::new();
        append_chars(&mut r, body);
        append_chars(&mut r, quotes.as_slice());
        return r;
    }
    let mut indent: Vec<char> = Vec::new();
    let mut k: usize = 0;
    while k < indent_len
        invariant
            0 <= k <= indent_len,
            indent@ =~= spaces(k as nat),
        decreases indent_len - k,
    {
        indent.push(' ');
        k += 1;
    }
    let ls = split_lines(body);
    let ghost lv = vviews(ls@);
    let mut indented: Vec<Vec<char>> = Vec::new();
    let mut i: usize = 0;
    while i < ls.len()
        invariant
            lv == vviews(ls@),
            lv == lines_of(body@),
            indent@ == spaces(indent_len as nat),
            0 <= i <= ls@.len(),
            indented@.len() == i,
            forall|j: int| 0 <= j < i ==> #[trigger] indented@[j]@ == indent_line(lv[j], indent@),
        decreases ls.len() - i,
    {
        assert(lv[i as int] == ls@[i as int]@);
        if ls[i].len() == 0 {
            indented.push(Vec::new());
        } else {
            let mut l: Vec<char> = Vec::new();
            append_chars(&mut l, indent.as_slice());
            append_chars(&mut l, ls[i].as_slice());
            indented.push(l);
        }
        i += 1;
    }
    let newline = chars_of("\n");
    assert(indented@.map_values(|p: Vec<char>| p@) =~= Seq::new(
        lv.len(),
        |j: int| indent_line(lv[j], indent@),
    ));
    let mut r = join_chars(&indented, newline.as_slice());
    append_chars(&mut r, newline.as_slice());
    append_chars(&mut r, indent.as_slice());
    append_chars(&mut r, quotes.as_slice());
    r
}

/// The docstring snippet offered at (`cursor_line`, `cursor_char`), the
/// cursor's column counted in bytes.
pub fn docstring_snippet(
    parser: &mut PythonParser,
    lines: &[&str],
    cursor_line: usize,
    cursor_char: usize,
) -> (r: Option<String>)
    requires
        cursor_line < lines@.len() ==> cursor_on_boundary(lines@[cursor_line as int]@, cursor_char as nat),
    ensures
        match r {
            Some(s) => snippet_for(views(lines@), cursor_line as int, cursor_char as nat) == Some(s@),
            None => snippet_for(views(lines@), cursor_line as int, cursor_char as nat) is None,
        },
{
    let ghost ls = views(lines@);
    if cursor_line >= lines.len() {
        return None;
    }
    let current_line = lines[cursor_line];
    assert(ls[cursor_line as int] == current_line@);
    let len = current_line.as_bytes().len();
    let m = if cursor_char < len {
        cursor_char
    } else {
        len
    };
    let (before_cursor, _) = current_line.split_at(m);
    proof {
        vstd::utf8::encode_utf8_decode_utf8(before_cursor@);
        assert(vstd::utf8::encode_utf8(current_line@).subrange(0, m as int) =~= vstd::utf8::encode_utf8(
            current_line@,
        ).take(m as int));
    }
    let before = chars_of(before_cursor);
    let trimmed = trim_chars(before.as_slice());
    let quotes = chars_of("\"\"\"");
    if !same_chars(trimmed.as_slice(), quotes.as_slice()) {
        return None;
    }
    let def_source = match find_definition_above(lines, cursor_line) {
        Some(d) => d,
        None => {
            return None;
        },
    };
    let body = match crate::docgen::generate_docstring_with(parser, def_source.as_str(), lines, cursor_line) {
        Some(b) => b,
        None => {
            return None;
        },
    };
    let indent_len = indent_of(current_line);
    let body_chars = chars_of(body.as_str());
    let snippet = snippet_text(body_chars.as_slice(), indent_len);
    Some(string_of(snippet.as_slice()))
}

/// The byte offset where the completion's edit ends: past a closing `"""`
/// right after the cursor, if there is one, else the cursor itself.
pub fn replacement_end(line: &str, cursor_char: usize) -> (end: usize)
    requires
        cursor_char <= vstd::utf8::encode_utf8(line@).len(),
        vstd::utf8::is_char_boundary(vstd::utf8::encode_utf8(line@), cursor_char as int),
    ensures
        end == replacement_end_of(line@, cursor_char as nat),
{
    let bytes = line.as_bytes();
    if bytes.len() >= 3 && cursor_char <= bytes.len() - 3 && bytes[cursor_char] == 34 && bytes[cursor_char + 1] == 34
        && bytes[cursor_char + 2] == 34 {
        cursor_char + 3
    } else {
        cursor_char
    }
}

} // verus!

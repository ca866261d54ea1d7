//! Locating the `def`/`class` header that a docstring belongs to.
use vstd::prelude::*;
use crate::text::{
    chars_of, ends_with, has_prefix, has_suffix, join, join_chars, starts_with, string_of, trim_end,
    trim_end_chars, trim_start, trim_start_chars, views,
};

verus! {

/// How many lines above the cursor are searched for a header.
pub const MAX_SIGNATURE_LINES: usize = 50;

/// A line (without its indentation) that opens a function or class definition.
pub open spec fn is_def_header(s: Seq<char>) -> bool {
    ||| starts_with(s, "def "@)
    ||| starts_with(s, "async def "@)
    ||| starts_with(s, "class "@)
}

/// The greatest `i` in `lo..hi` whose line is a header.
pub open spec fn last_header(lines: Seq<Seq<char>>, lo: int, hi: int) -> Option<int>
    decreases hi - lo,
{
    if hi <= lo {
        None
    } else if is_def_header(trim_start(lines[hi - 1])) {
        Some(hi - 1)
    } else {
        last_header(lines, lo, hi - 1)
    }
}

/// A line that may stand between stacked decorators: a decorator or a blank line.
pub open spec fn is_decorator_or_blank(s: Seq<char>) -> bool {
    starts_with(trim_start(s), "@"@) || trim_start(s).len() == 0
}

/// The first line of the block of decorators and blank lines ending just above `start`.
pub open spec fn decorated_start(lines: Seq<Seq<char>>, start: int) -> int
    decreases start,
{
    if start > 0 && is_decorator_or_blank(lines[start - 1]) {
        decorated_start(lines, start - 1)
    } else {
        start
    }
}

/// What `find_definition_above` returns for these lines and this cursor line.
pub open spec fn definition_above(lines: Seq<Seq<char>>, cursor: int) -> Option<Seq<char>> {
    if lines.len() == 0 || cursor == 0 {
        None
    } else {
        let lo = if cursor >= MAX_SIGNATURE_LINES { cursor - MAX_SIGNATURE_LINES } else { 0 };
        match last_header(lines, lo, cursor) {
            None => None,
            Some(h) => {
                let start = decorated_start(lines, h);
                let source = join(lines.subrange(start, cursor), "\n"@);
                if ends_with(trim_end(source), ":"@) {
                    Some(source)
                } else {
                    None
                }
            },
        }
    }
}

/// The inputs on which `find_definition_above` reads no line past the end.
pub open spec fn cursor_in_range(lines: Seq<Seq<char>>, cursor: int) -> bool {
    lines.len() == 0 || cursor == 0 || cursor <= lines.len()
}

proof fn lemma_last_header_range(lines: Seq<Seq<char>>, lo: int, hi: int)
    ensures
        last_header(lines, lo, hi) matches Some(h) ==> lo <= h < hi && is_def_header(
            trim_start(lines[h]),
        ),
    decreases hi - lo,
{
    if hi > lo && !is_def_header(trim_start(lines[hi - 1])) {
        lemma_last_header_range(lines, lo, hi - 1);
    }
}

proof fn lemma_decorated_start_range(lines: Seq<Seq<char>>, start: int)
    requires
        0 <= start,
    ensures
        0 <= decorated_start(lines, start) <= start,
    decreases start,
{
    if start > 0 && is_decorator_or_blank(lines[start - 1]) {
        lemma_decorated_start_range(lines, start - 1);
    }
}

/// Walks upward from `cursor_line - 1` and returns the source of the nearest
/// `def` or `class` statement (with its decorators), or `None` if there is none
/// in the 50 lines above or the source gathered does not end with `:`.
pub fn find_definition_above(lines: &[&str], cursor_line: usize) -> (r: Option<String>)
    requires
        cursor_in_range(views(lines@), cursor_line as int),
    ensures
        r matches Some(s) ==> definition_above(views(lines@), cursor_line as int) == Some(s@),
        r is None ==> definition_above(views(lines@), cursor_line as int) is None,
{
    let ghost ls = views(lines@);
    if lines.len() == 0 || cursor_line == 0 {
        return None;
    }
    let search_from = if cursor_line >= MAX_SIGNATURE_LINES {
        cursor_line - MAX_SIGNATURE_LINES
    } else {
        0
    };
    let def_kw = chars_of("def ");
    let async_kw = chars_of("async def ");
    let class_kw = chars_of("class ");
    let mut i = cursor_line;
    let mut found: Option<usize> = None;
    while i > search_from
        invariant_except_break
            found is None,
            last_header(ls, search_from as int, cursor_line as int) == last_header(
                ls,
                search_from as int,
                i as int,
            ),
        invariant
            ls == views(lines@),
            cursor_line <= lines@.len(),
            search_from <= i <= cursor_line,
            def_kw@ == "def "@,
            async_kw@ == "async def "@,
            class_kw@ == "class "@,
        ensures
            found is None ==> last_header(ls, search_from as int, cursor_line as int) is None,
            found matches Some(h) ==> last_header(ls, search_from as int, cursor_line as int)
                == Some(h as int),
        decreases i,
    {
        let line = chars_of(lines[i - 1]);
        assert(ls[i - 1] == lines@[i - 1]@);
        let stripped = trim_start_chars(line.as_slice());
        if has_prefix(stripped.as_slice(), def_kw.as_slice()) || has_prefix(
            stripped.as_slice(),
            async_kw.as_slice(),
        ) || has_prefix(stripped.as_slice(), class_kw.as_slice()) {
            assert(is_def_header(trim_start(ls[i - 1])));
            assert(last_header(ls, search_from as int, i as int) == Some(i - 1));
            found = Some(i - 1);
            break;
        }
        i -= 1;
    }
    let mut start = match found {
        Some(h) => h,
        None => {
            return None;
        },
    };
    proof {
        lemma_last_header_range(ls, search_from as int, cursor_line as int);
    }
    let ghost h = start;
    let at = chars_of("@");
    while start > 0
        invariant
            ls == views(lines@),
            start <= h < cursor_line <= lines@.len(),
            at@ == "@"@,
            decorated_start(ls, h as int) == decorated_start(ls, start as int),
        ensures
            decorated_start(ls, h as int) == start,
        decreases start,
    {
        let prev = chars_of(lines[start - 1]);
        assert(ls[start - 1] == lines@[start - 1]@);
        let prev_line = trim_start_chars(prev.as_slice());
        if has_prefix(prev_line.as_slice(), at.as_slice()) || prev_line.len() == 0 {
            start -= 1;
        } else {
            break;
        }
    }
    let mut parts: Vec<Vec<char>> = Vec::new();
    let mut k = start;
    while k < cursor_line
        invariant
            ls == views(lines@),
            start <= k <= cursor_line <= lines@.len(),
            parts@.len() == k - start,
            forall|j: int| 0 <= j < parts@.len() ==> #[trigger] parts@[j]@ == ls[start + j],
        decreases cursor_line - k,
    {
        let line = chars_of(lines[k]);
        assert(ls[k as int] == lines@[k as int]@);
        parts.push(line);
        k += 1;
    }
    assert(parts@.map_values(|p: Vec<char>| p@) =~= ls.subrange(start as int, cursor_line as int));
    let newline = chars_of("\n");
    let source = join_chars(&parts, newline.as_slice());
    let trimmed = trim_end_chars(source.as_slice());
    let colon = chars_of(":");
    if !has_suffix(trimmed.as_slice(), colon.as_slice()) {
        return None;
    }
    Some(string_of(source.as_slice()))
}

} // verus!

//! Comment removal: the source becomes one line of code.
use crate::text::{chars_of, is_space, space_char, string_of};
use vstd::prelude::*;

verus! {

/// The end of the line that holds position `i`: the first `\n` at or after
/// `i`, or the end of the text.
pub open spec fn line_end(s: Seq<char>, i: int) -> int
    decreases s.len() - i,
{
    if i >= s.len() {
        s.len() as int
    } else if s[i] == '\n' {
        i
    } else {
        line_end(s, i + 1)
    }
}

/// The first position in `[i, e)` that holds no whitespace, or `e`.
pub open spec fn skip_space(s: Seq<char>, i: int, e: int) -> int
    decreases e - i,
{
    if i >= e {
        e
    } else if is_space(s[i]) {
        skip_space(s, i + 1, e)
    } else {
        i
    }
}

/// The first position in `[i, e)` where `//` starts and ends before `e`, or `e`.
pub open spec fn comment_start(s: Seq<char>, i: int, e: int) -> int
    decreases e - i,
{
    if i + 1 >= e {
        e
    } else if s[i] == '/' && s[i + 1] == '/' {
        i
    } else {
        comment_start(s, i + 1, e)
    }
}

/// The end of `s[a..b]` once its trailing whitespace is removed.
pub open spec fn trim_end(s: Seq<char>, a: int, b: int) -> int
    decreases b - a,
{
    if b <= a {
        a
    } else if is_space(s[b - 1]) {
        trim_end(s, a, b - 1)
    } else {
        b
    }
}

/// The line that starts at `i` consists of a `//` comment alone.
pub open spec fn comment_only(s: Seq<char>, i: int) -> bool {
    let e = line_end(s, i);
    let a = skip_space(s, i, e);
    a < e && comment_start(s, a, e) == a
}

/// The line that starts at `i`, trimmed and cut before its first `//`.
pub open spec fn kept_line(s: Seq<char>, i: int) -> Seq<char> {
    let e = line_end(s, i);
    let a = skip_space(s, i, e);
    s.subrange(a, trim_end(s, a, comment_start(s, a, e)))
}

/// The lines from the one that starts at `i` on, each trimmed and cut before
/// its first `//`, joined by single spaces; a line that is only a `//` comment
/// is left out. `first` says that nothing has been emitted before.
pub open spec fn joined_lines(s: Seq<char>, i: int, first: bool) -> Seq<char>
    decreases s.len() - i,
{
    if i < 0 || i > s.len() {
        Seq::empty()
    } else {
        let e = line_end(s, i);
        let skip = comment_only(s, i);
        let piece = if skip {
            Seq::empty()
        } else if first {
            kept_line(s, i)
        } else {
            seq![' '] + kept_line(s, i)
        };
        let rest = if i <= e < s.len() {
            joined_lines(s, e + 1, first && skip)
        } else {
            Seq::empty()
        };
        piece + rest
    }
}

/// The text from `i` on, outside a block comment: `/*` turns into one space
/// and opens a comment.
pub open spec fn outside_block(t: Seq<char>, i: int) -> Seq<char>
    decreases t.len() - i,
{
    if i < 0 || i >= t.len() {
        Seq::empty()
    } else if i + 1 < t.len() && t[i] == '/' && t[i + 1] == '*' {
        seq![' '] + inside_block(t, i + 2)
    } else {
        seq![t[i]] + outside_block(t, i + 1)
    }
}

/// The text from `i` on, inside a block comment: everything up to and
/// including the next `*/` is dropped; with no `*/`, the rest is dropped.
pub open spec fn inside_block(t: Seq<char>, i: int) -> Seq<char>
    decreases t.len() - i,
{
    if i < 0 || i >= t.len() {
        Seq::empty()
    } else if i + 1 < t.len() && t[i] == '*' && t[i + 1] == '/' {
        outside_block(t, i + 2)
    } else {
        inside_block(t, i + 1)
    }
}

/// The normalized form of a source text: each line trimmed and freed of its
/// `//` comment, the lines joined by spaces; then block comments removed.
pub open spec fn normalized(s: Seq<char>) -> Seq<char> {
    outside_block(joined_lines(s, 0, true), 0)
}

fn find_line_end(s: &Vec<char>, i: usize) -> (e: usize)
    requires
        i <= s@.len(),
    ensures
        e == line_end(s@, i as int),
        i <= e <= s@.len(),
{
    let mut j = i;
    while j < s.len() && s[j] != '\n'
        invariant
            i <= j <= s@.len(),
            line_end(s@, i as int) == line_end(s@, j as int),
        decreases s@.len() - j,
    {
        j = j + 1;
    }
    j
}

pub(crate) fn find_non_space(s: &Vec<char>, i: usize, e: usize) -> (a: usize)
    requires
        i <= e <= s@.len(),
    ensures
        a == skip_space(s@, i as int, e as int),
        i <= a <= e,
{
    let mut j = i;
    while j < e && space_char(s[j])
        invariant
            i <= j <= e,
            e <= s@.len(),
            skip_space(s@, i as int, e as int) == skip_space(s@, j as int, e as int),
        decreases e - j,
    {
        j = j + 1;
    }
    j
}

fn find_comment(s: &Vec<char>, a: usize, e: usize) -> (c: usize)
    requires
        a <= e <= s@.len(),
    ensures
        c == comment_start(s@, a as int, e as int),
        a <= c <= e,
{
    let mut j = a;
    while j < e && j + 1 < e && !(s[j] == '/' && s[j + 1] == '/')
        invariant
            a <= j <= e,
            e <= s@.len(),
            comment_start(s@, a as int, e as int) == comment_start(s@, j as int, e as int),
        decreases e - j,
    {
        j = j + 1;
    }
    if j < e && j + 1 < e {
        j
    } else {
        e
    }
}

pub(crate) fn find_trim_end(s: &Vec<char>, a: usize, b: usize) -> (r: usize)
    requires
        a <= b <= s@.len(),
    ensures
        r == trim_end(s@, a as int, b as int),
        a <= r <= b,
{
    let mut j = b;
    while j > a && space_char(s[j - 1])
        invariant
            a <= j <= b,
            b <= s@.len(),
            trim_end(s@, a as int, b as int) == trim_end(s@, a as int, j as int),
        decreases j - a,
    {
        j = j - 1;
    }
    j
}

/// Appends `s[a..b]` to `out`.
pub(crate) fn push_range(out: &mut Vec<char>, s: &Vec<char>, a: usize, b: usize)
    requires
        a <= b <= s@.len(),
    ensures
        final(out)@ == old(out)@ + s@.subrange(a as int, b as int),
{
    let mut j = a;
    while j < b
        invariant
            a <= j <= b,
            b <= s@.len(),
            out@ == old(out)@ + s@.subrange(a as int, j as int),
        decreases b - j,
    {
        out.push(s[j]);
        assert(out@ =~= old(out)@ + s@.subrange(a as int, j + 1));
        j = j + 1;
    }
}

fn join_lines(s: &Vec<char>) -> (r: Vec<char>)
    ensures
        r@ == joined_lines(s@, 0, true),
{
    let mut out: Vec<char> = Vec::new();
    let mut i: usize = 0;
    let mut first = true;
    loop
        invariant
            i <= s@.len(),
            out@ + joined_lines(s@, i as int, first) == joined_lines(s@, 0, true),
        decreases s@.len() - i,
    {
        let ghost before = out@;
        let ghost was_first = first;
        let e = find_line_end(s, i);
        let a = find_non_space(s, i, e);
        let c = find_comment(s, a, e);
        let skip = a < e && c == a;
        if !skip {
            let b = find_trim_end(s, a, c);
            if !first {
                out.push(' ');
            }
            push_range(&mut out, s, a, b);
            first = false;
        }
        let ghost piece = if skip {
            Seq::<char>::empty()
        } else if was_first {
            kept_line(s@, i as int)
        } else {
            seq![' '] + kept_line(s@, i as int)
        };
        assert(out@ =~= before + piece);
        if e < s.len() {
            assert(joined_lines(s@, i as int, was_first) == piece + joined_lines(
                s@,
                e + 1,
                first,
            ));
            assert(out@ + joined_lines(s@, e + 1, first) =~= before + (piece + joined_lines(
                s@,
                e + 1,
                first,
            )));
            i = e + 1;
        } else {
            assert(joined_lines(s@, i as int, was_first) =~= piece);
            return out;
        }
    }
}

/// The normalized form of `source`: see `normalized`.
pub fn normalize(source: &str) -> (r: String)
    ensures
        r@ == normalized(source@),
{
    let s = chars_of(source);
    let t = join_lines(&s);
    let mut out: Vec<char> = Vec::new();
    let mut i: usize = 0;
    let mut inside = false;
    while i < t.len()
        invariant
            i <= t@.len(),
            out@ + (if inside {
                inside_block(t@, i as int)
            } else {
                outside_block(t@, i as int)
            }) == outside_block(t@, 0),
        decreases t@.len() - i,
    {
        let ghost before = out@;
        if inside {
            if i + 1 < t.len() && t[i] == '*' && t[i + 1] == '/' {
                inside = false;
                i = i + 2;
            } else {
                i = i + 1;
            }
        } else {
            if i + 1 < t.len() && t[i] == '/' && t[i + 1] == '*' {
                out.push(' ');
                assert(outside_block(t@, i as int) == seq![' '] + inside_block(t@, i + 2));
                assert(out@ + inside_block(t@, i + 2) =~= before + outside_block(t@, i as int));
                inside = true;
                i = i + 2;
            } else {
                out.push(t[i]);
                assert(outside_block(t@, i as int) == seq![t@[i as int]] + outside_block(
                    t@,
                    i + 1,
                ));
                assert(out@ + outside_block(t@, i + 1) =~= before + outside_block(t@, i as int));
                i = i + 1;
            }
        }
    }
    assert(out@ =~= outside_block(t@, 0));
    string_of(&out)
}

} // verus!

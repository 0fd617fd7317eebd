//! Scopes: balanced `{ ... }` regions, outermost first, left to right.
use crate::text::{chars_of, cut};
use vstd::prelude::*;

verus! {

/// The position of the `close` that balances an `open` already seen, when
/// scanning from `j` at nesting `depth`; `None` when the text ends first.
pub open spec fn closing(t: Seq<char>, j: int, depth: int, open: char, close: char) -> Option<
    int,
>
    decreases t.len() - j,
{
    if j < 0 || j >= t.len() {
        None
    } else if t[j] == open {
        closing(t, j + 1, depth + 1, open, close)
    } else if t[j] == close {
        if depth <= 1 {
            Some(j)
        } else {
            closing(t, j + 1, depth - 1, open, close)
        }
    } else {
        closing(t, j + 1, depth, open, close)
    }
}

/// The scopes found from position `i` on; none starts before `from`, the end
/// of the previous one. A `{` with no balancing `}` is passed over.
pub open spec fn scopes_from(t: Seq<char>, i: int, from: int) -> Seq<Seq<char>>
    decreases t.len() - i,
{
    if i < 0 || i >= t.len() {
        Seq::empty()
    } else if i >= from && t[i] == '{' && closing(t, i + 1, 1, '{', '}') is Some {
        let c = closing(t, i + 1, 1, '{', '}')->0;
        seq![t.subrange(i, c + 1)] + scopes_from(t, i + 1, c + 1)
    } else {
        scopes_from(t, i + 1, from)
    }
}

/// The scopes of a text, in the order in which they start.
pub open spec fn scope_texts(t: Seq<char>) -> Seq<Seq<char>> {
    scopes_from(t, 0, 0)
}

/// The position of the `close` that balances the `open` just before `start`.
pub(crate) fn find_closing(t: &Vec<char>, start: usize, open: char, close: char) -> (r: Option<
    usize,
>)
    requires
        1 <= start <= t@.len(),
    ensures
        r matches Some(c) ==> closing(t@, start as int, 1, open, close) == Some(c as int) && start
            <= c < t@.len(),
        r is None ==> closing(t@, start as int, 1, open, close) is None,
{
    let mut j = start;
    let mut depth: usize = 1;
    while j < t.len()
        invariant
            start <= j <= t@.len(),
            1 <= depth <= j,
            closing(t@, start as int, 1, open, close) == closing(
                t@,
                j as int,
                depth as int,
                open,
                close,
            ),
        decreases t@.len() - j,
    {
        if t[j] == open {
            depth = depth + 1;
        } else if t[j] == close {
            if depth <= 1 {
                return Some(j);
            }
            depth = depth - 1;
        }
        j = j + 1;
    }
    None
}

/// The scopes of `text`: see `scope_texts`.
pub fn scopes(text: &str) -> (r: Vec<String>)
    ensures
        r@.map_values(|x: String| x@) == scope_texts(text@),
{
    let t = chars_of(text);
    let mut out: Vec<String> = Vec::new();
    let mut i: usize = 0;
    let mut from: usize = 0;
    while i < t.len()
        invariant
            i <= t@.len(),
            t@ == text@,
            out@.map_values(|x: String| x@) + scopes_from(t@, i as int, from as int)
                == scope_texts(t@),
        decreases t@.len() - i,
    {
        let ghost before = out@.map_values(|x: String| x@);
        if i >= from && t[i] == '{' {
            match find_closing(&t, i + 1, '{', '}') {
                Some(c) => {
                    out.push(cut(text, i, c + 1));
                    assert(out@.map_values(|x: String| x@) =~= before + seq![
                        t@.subrange(i as int, c + 1),
                    ]);
                    let ghost piece = seq![t@.subrange(i as int, c + 1)];
                    assert(scopes_from(t@, i as int, from as int) == piece + scopes_from(
                        t@,
                        i + 1,
                        c + 1,
                    ));
                    assert(before + piece + scopes_from(t@, i + 1, c + 1) =~= before + (piece
                        + scopes_from(t@, i + 1, c + 1)));
                    from = c + 1;
                },
                None => {},
            }
        }
        i = i + 1;
    }
    out
}

} // verus!

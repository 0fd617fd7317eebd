//! Facts about the scanners: how they behave behind a prefix, before a
//! suffix, and where their results lie.
use crate::normalize::{
    comment_only, comment_start, inside_block, joined_lines, kept_line, line_end, outside_block,
    skip_space, trim_end,
};
use crate::scope::{closing, scope_texts, scopes_from};
use crate::text::is_space;
use vstd::prelude::*;

verus! {

pub(crate) proof fn line_end_shift(p: Seq<char>, d: Seq<char>, i: int)
    requires
        0 <= i <= d.len(),
    ensures
        line_end(p + d, p.len() + i) == p.len() + line_end(d, i),
    decreases d.len() - i,
{
    if i < d.len() {
        assert((p + d)[p.len() + i] == d[i]);
        line_end_shift(p, d, i + 1);
    }
}

pub(crate) proof fn skip_space_shift(p: Seq<char>, d: Seq<char>, i: int, e: int)
    requires
        0 <= i,
        e <= d.len(),
    ensures
        skip_space(p + d, p.len() + i, p.len() + e) == p.len() + skip_space(d, i, e),
    decreases e - i,
{
    if i < e {
        assert((p + d)[p.len() + i] == d[i]);
        skip_space_shift(p, d, i + 1, e);
    }
}

pub(crate) proof fn comment_start_shift(p: Seq<char>, d: Seq<char>, i: int, e: int)
    requires
        0 <= i,
        e <= d.len(),
    ensures
        comment_start(p + d, p.len() + i, p.len() + e) == p.len() + comment_start(d, i, e),
    decreases e - i,
{
    if i + 1 < e {
        assert((p + d)[p.len() + i] == d[i]);
        assert((p + d)[p.len() + i + 1] == d[i + 1]);
        comment_start_shift(p, d, i + 1, e);
    }
}

pub(crate) proof fn trim_end_shift(p: Seq<char>, d: Seq<char>, a: int, b: int)
    requires
        0 <= a,
        b <= d.len(),
    ensures
        trim_end(p + d, p.len() + a, p.len() + b) == p.len() + trim_end(d, a, b),
    decreases b - a,
{
    if a < b {
        assert((p + d)[p.len() + b - 1] == d[b - 1]);
        trim_end_shift(p, d, a, b - 1);
    }
}

pub(crate) proof fn line_bounds(s: Seq<char>, i: int)
    requires
        0 <= i <= s.len(),
    ensures
        i <= line_end(s, i) <= s.len(),
    decreases s.len() - i,
{
    if i < s.len() {
        line_bounds(s, i + 1);
    }
}

pub(crate) proof fn skip_space_bounds(s: Seq<char>, i: int, e: int)
    requires
        i <= e,
    ensures
        i <= skip_space(s, i, e) <= e,
    decreases e - i,
{
    if i < e {
        skip_space_bounds(s, i + 1, e);
    }
}

pub(crate) proof fn comment_start_bounds(s: Seq<char>, i: int, e: int)
    requires
        i <= e,
    ensures
        i <= comment_start(s, i, e) <= e,
    decreases e - i,
{
    if i + 1 < e {
        comment_start_bounds(s, i + 1, e);
    }
}

pub(crate) proof fn trim_end_bounds(s: Seq<char>, a: int, b: int)
    requires
        a <= b,
    ensures
        a <= trim_end(s, a, b) <= b,
    decreases b - a,
{
    if a < b {
        trim_end_bounds(s, a, b - 1);
    }
}

/// Line handling sees only what follows a line's start: behind a prefix `p`,
/// the lines of `d` are joined as they are in `d` alone.
pub(crate) proof fn joined_lines_shift(p: Seq<char>, d: Seq<char>, i: int, first: bool)
    requires
        0 <= i <= d.len(),
    ensures
        joined_lines(p + d, p.len() + i, first) == joined_lines(d, i, first),
    decreases d.len() - i,
{
    let s = p + d;
    let k = p.len() as int;
    let e = line_end(d, i);
    line_end_shift(p, d, i);
    line_bounds(d, i);
    let a = skip_space(d, i, e);
    skip_space_shift(p, d, i, e);
    skip_space_bounds(d, i, e);
    let c = comment_start(d, a, e);
    comment_start_shift(p, d, a, e);
    comment_start_bounds(d, a, e);
    trim_end_shift(p, d, a, c);
    trim_end_bounds(d, a, c);
    assert(comment_only(s, k + i) == comment_only(d, i));
    assert(s.subrange(k + a, k + trim_end(d, a, c)) =~= d.subrange(a, trim_end(d, a, c)));
    assert(kept_line(s, k + i) == kept_line(d, i));
    if e < d.len() {
        joined_lines_shift(p, d, e + 1, first && comment_only(d, i));
        assert(k + e + 1 == k + (e + 1));
    }
}

pub(crate) proof fn skip_blank_prefix(s: Seq<char>, w: Seq<char>, i: int, e: int)
    requires
        0 <= i <= w.len() < e <= s.len(),
        s.subrange(0, w.len() as int) == w,
        forall|j: int| 0 <= j < w.len() ==> is_space(#[trigger] w[j]),
        !is_space(s[w.len() as int]),
    ensures
        skip_space(s, i, e) == w.len(),
    decreases w.len() - i,
{
    if i < w.len() {
        assert(s[i] == s.subrange(0, w.len() as int)[i]);
        skip_blank_prefix(s, w, i + 1, e);
    }
}

pub(crate) proof fn line_end_of_first(s: Seq<char>, c: Seq<char>, i: int)
    requires
        0 <= i <= c.len() < s.len(),
        s.subrange(0, c.len() as int) == c,
        s[c.len() as int] == '\n',
        forall|j: int| 0 <= j < c.len() ==> #[trigger] c[j] != '\n',
    ensures
        line_end(s, i) == c.len(),
    decreases c.len() - i,
{
    if i < c.len() {
        assert(s[i] == s.subrange(0, c.len() as int)[i]);
        line_end_of_first(s, c, i + 1);
    }
}

pub(crate) proof fn first_flag(d: Seq<char>, i: int)
    requires
        0 <= i <= d.len(),
    ensures
        joined_lines(d, i, false) == seq![' '] + joined_lines(d, i, true) || (joined_lines(
            d,
            i,
            false,
        ).len() == 0 && joined_lines(d, i, true).len() == 0),
    decreases d.len() - i,
{
    let e = line_end(d, i);
    line_bounds(d, i);
    if e < d.len() {
        first_flag(d, e + 1);
    }
    if !comment_only(d, i) {
        let rest = if e < d.len() {
            joined_lines(d, e + 1, false)
        } else {
            Seq::empty()
        };
        assert((seq![' '] + kept_line(d, i)) + rest =~= seq![' '] + (kept_line(d, i) + rest));
    } else {
        assert(joined_lines(d, i, false) =~= if e < d.len() {
            joined_lines(d, e + 1, false)
        } else {
            Seq::empty()
        });
        assert(joined_lines(d, i, true) =~= if e < d.len() {
            joined_lines(d, e + 1, true)
        } else {
            Seq::empty()
        });
    }
}

pub(crate) proof fn no_line_comment(s: Seq<char>, i: int, e: int)
    requires
        0 <= i <= e <= s.len(),
        forall|j: int| i <= j < e - 1 ==> !(s[j] == '/' && #[trigger] s[j + 1] == '/'),
    ensures
        comment_start(s, i, e) == e,
    decreases e - i,
{
    if i + 1 < e {
        no_line_comment(s, i + 1, e);
    }
}

pub(crate) proof fn comment_runs_to(s: Seq<char>, j: int, m: int)
    requires
        0 <= j <= m,
        m + 1 < s.len(),
        s[m] == '*' && s[m + 1] == '/',
        forall|k: int| j <= k < m ==> !(s[k] == '*' && #[trigger] s[k + 1] == '/'),
    ensures
        inside_block(s, j) == outside_block(s, m + 2),
    decreases m - j,
{
    if j < m {
        comment_runs_to(s, j + 1, m);
    }
}

pub(crate) proof fn block_shift(p: Seq<char>, t: Seq<char>, i: int)
    requires
        0 <= i,
    ensures
        outside_block(p + t, p.len() + i) == outside_block(t, i),
        inside_block(p + t, p.len() + i) == inside_block(t, i),
    decreases t.len() - i,
{
    if i < t.len() {
        assert((p + t)[p.len() + i] == t[i]);
        if i + 1 < t.len() {
            assert((p + t)[p.len() + i + 1] == t[i + 1]);
            block_shift(p, t, i + 2);
            assert(p.len() + i + 2 == p.len() + (i + 2));
        }
        block_shift(p, t, i + 1);
        assert(p.len() + i + 1 == p.len() + (i + 1));
    }
}

pub(crate) proof fn closing_shift(p: Seq<char>, t: Seq<char>, j: int, depth: int)
    requires
        0 <= j,
    ensures
        closing(t, j, depth, '{', '}') matches Some(c) ==> closing(
            p + t,
            p.len() + j,
            depth,
            '{',
            '}',
        ) == Some(p.len() + c) && j <= c < t.len(),
        closing(t, j, depth, '{', '}') is None ==> closing(p + t, p.len() + j, depth, '{', '}')
            is None,
    decreases t.len() - j,
{
    if j < t.len() {
        assert((p + t)[p.len() + j] == t[j]);
        closing_shift(p, t, j + 1, depth + 1);
        closing_shift(p, t, j + 1, depth - 1);
        closing_shift(p, t, j + 1, depth);
        assert(p.len() + j + 1 == p.len() + (j + 1));
    }
}

pub(crate) proof fn scopes_shift(p: Seq<char>, t: Seq<char>, i: int, from: int)
    requires
        0 <= i,
    ensures
        scopes_from(p + t, p.len() + i, p.len() + from) == scopes_from(t, i, from),
    decreases t.len() - i,
{
    if i < t.len() {
        let s = p + t;
        let k = p.len() as int;
        assert(s[k + i] == t[i]);
        closing_shift(p, t, i + 1, 1);
        assert(k + i + 1 == k + (i + 1));
        if i >= from && t[i] == '{' && closing(t, i + 1, 1, '{', '}') is Some {
            let c = closing(t, i + 1, 1, '{', '}')->0;
            assert(s.subrange(k + i, k + c + 1) =~= t.subrange(i, c + 1));
            scopes_shift(p, t, i + 1, c + 1);
            assert(k + c + 1 == k + (c + 1));
        } else {
            scopes_shift(p, t, i + 1, from);
        }
    }
}

pub(crate) proof fn scopes_from_start(s: Seq<char>, i: int, f1: int, f2: int)
    requires
        f1 <= i,
        f2 <= i,
    ensures
        scopes_from(s, i, f1) == scopes_from(s, i, f2),
    decreases s.len() - i,
{
    if 0 <= i < s.len() {
        if !(s[i] == '{' && closing(s, i + 1, 1, '{', '}') is Some) {
            scopes_from_start(s, i + 1, f1, f2);
        }
    }
}

pub(crate) proof fn scopes_skip_prefix(p: Seq<char>, t: Seq<char>, i: int)
    requires
        0 <= i <= p.len(),
        forall|j: int| 0 <= j < p.len() ==> #[trigger] p[j] != '{',
    ensures
        scopes_from(p + t, i, 0) == scopes_from(p + t, p.len() as int, 0),
    decreases p.len() - i,
{
    if i < p.len() {
        assert((p + t)[i] == p[i]);
        scopes_skip_prefix(p, t, i + 1);
    }
}

/// Text without braces in front of a text leaves its scopes as they are.
pub(crate) proof fn scopes_after_braceless(p: Seq<char>, t: Seq<char>)
    requires
        forall|j: int| 0 <= j < p.len() ==> #[trigger] p[j] != '{',
    ensures
        scope_texts(p + t) == scope_texts(t),
{
    scopes_skip_prefix(p, t, 0);
    scopes_from_start(p + t, p.len() as int, 0, p.len() as int);
    scopes_shift(p, t, 0, 0);
    assert(p.len() + 0 == p.len());
}

pub(crate) proof fn line_end_extend(d: Seq<char>, x: Seq<char>, i: int)
    requires
        0 <= i <= d.len(),
        x.len() > 0,
        x[0] == '\n',
    ensures
        line_end(d + x, i) == line_end(d, i),
    decreases d.len() - i,
{
    if i < d.len() {
        assert((d + x)[i] == d[i]);
        line_end_extend(d, x, i + 1);
    } else {
        assert((d + x)[i] == x[0]);
    }
}

pub(crate) proof fn scans_extend(d: Seq<char>, x: Seq<char>, i: int, e: int)
    requires
        0 <= i <= e <= d.len(),
    ensures
        skip_space(d + x, i, e) == skip_space(d, i, e),
        comment_start(d + x, i, e) == comment_start(d, i, e),
        trim_end(d + x, i, e) == trim_end(d, i, e),
    decreases e - i,
{
    if i < e {
        assert((d + x)[i] == d[i]);
        assert((d + x)[e - 1] == d[e - 1]);
        if i + 1 < e {
            assert((d + x)[i + 1] == d[i + 1]);
        }
        scans_extend(d, x, i + 1, e);
        scans_extend(d, x, i, e - 1);
    }
}

pub(crate) proof fn joined_lines_extend(d: Seq<char>, x: Seq<char>, i: int, first: bool)
    requires
        0 <= i <= d.len(),
        x.len() > 0,
        x[0] == '\n',
    ensures
        joined_lines(d + x, i, first) == joined_lines(d, i, first) + joined_lines(
            d + x,
            d.len() as int + 1,
            first && all_comment_lines(d, i),
        ),
    decreases d.len() - i,
{
    let t = d + x;
    let e = line_end(d, i);
    line_end_extend(d, x, i);
    line_bounds(d, i);
    let a = skip_space(d, i, e);
    skip_space_bounds(d, i, e);
    scans_extend(d, x, i, e);
    scans_extend(d, x, a, e);
    let c = comment_start(d, a, e);
    comment_start_bounds(d, a, e);
    scans_extend(d, x, a, c);
    trim_end_bounds(d, a, c);
    assert(comment_only(t, i) == comment_only(d, i));
    assert(t.subrange(a, trim_end(d, a, c)) =~= d.subrange(a, trim_end(d, a, c)));
    assert(kept_line(t, i) == kept_line(d, i));
    let g = first && comment_only(d, i);
    if e < d.len() {
        joined_lines_extend(d, x, e + 1, g);
        assert(joined_lines(d, i, first) == (if comment_only(d, i) {
            Seq::empty()
        } else if first {
            kept_line(d, i)
        } else {
            seq![' '] + kept_line(d, i)
        }) + joined_lines(d, e + 1, g));
        assert((g && all_comment_lines(d, e + 1)) == (first && all_comment_lines(d, i)));
        let here = if comment_only(d, i) {
            Seq::<char>::empty()
        } else if first {
            kept_line(d, i)
        } else {
            seq![' '] + kept_line(d, i)
        };
        assert(here + (joined_lines(d, e + 1, g) + joined_lines(
            t,
            d.len() as int + 1,
            first && all_comment_lines(d, i),
        )) =~= (here + joined_lines(d, e + 1, g)) + joined_lines(
            t,
            d.len() as int + 1,
            first && all_comment_lines(d, i),
        ));
    } else {
        assert(e == d.len());
        assert(all_comment_lines(d, i) == comment_only(d, i));
        let here = if comment_only(d, i) {
            Seq::<char>::empty()
        } else if first {
            kept_line(d, i)
        } else {
            seq![' '] + kept_line(d, i)
        };
        assert(joined_lines(d, i, first) =~= here);
    }
}

/// Joined lines never hold `/*` where the text itself holds none.
pub(crate) proof fn joined_has_no_opening(d: Seq<char>, i: int, first: bool)
    requires
        0 <= i <= d.len(),
        forall|j: int| 0 <= j < d.len() - 1 ==> !(d[j] == '/' && #[trigger] d[j + 1] == '*'),
    ensures
        forall|j: int|
            0 <= j < joined_lines(d, i, first).len() - 1 ==> !(joined_lines(d, i, first)[j]
                == '/' && #[trigger] joined_lines(d, i, first)[j + 1] == '*'),
    decreases d.len() - i,
{
    let e = line_end(d, i);
    line_bounds(d, i);
    let a = skip_space(d, i, e);
    skip_space_bounds(d, i, e);
    let c = comment_start(d, a, e);
    comment_start_bounds(d, a, e);
    trim_end_bounds(d, a, c);
    let k = kept_line(d, i);
    let here = if comment_only(d, i) {
        Seq::<char>::empty()
    } else if first {
        k
    } else {
        seq![' '] + k
    };
    assert forall|j: int| 0 <= j < here.len() - 1 implies !(here[j] == '/' && #[trigger] here[j
        + 1] == '*') by {
        if !comment_only(d, i) {
            if first {
                assert(here[j] == d[a + j] && here[j + 1] == d[a + j + 1]);
                assert(!(d[a + j] == '/' && d[a + j + 1] == '*'));
            } else if j >= 1 {
                assert(here[j] == d[a + j - 1] && here[j + 1] == d[a + j - 1 + 1]);
                assert(!(d[a + j - 1] == '/' && d[a + j - 1 + 1] == '*'));
            } else {
                assert(here[0] == ' ');
            }
        }
    }
    let g = first && comment_only(d, i);
    let rest = if e < d.len() {
        joined_lines(d, e + 1, g)
    } else {
        Seq::<char>::empty()
    };
    if e < d.len() {
        joined_has_no_opening(d, e + 1, g);
        first_flag(d, e + 1);
    }
    let whole = joined_lines(d, i, first);
    assert(whole == here + rest);
    assert forall|j: int| 0 <= j < whole.len() - 1 implies !(whole[j] == '/' && #[trigger] whole[j
        + 1] == '*') by {
        if j + 1 < here.len() {
            assert(whole[j] == here[j] && whole[j + 1] == here[j + 1]);
        } else if j >= here.len() {
            assert(whole[j] == rest[j - here.len()] && whole[j + 1] == rest[j - here.len() + 1]);
        } else {
            assert(!g);
            assert(rest[0] == ' ');
            assert(whole[j + 1] == rest[0]);
        }
    }
}

pub(crate) proof fn outside_plain(t: Seq<char>, z: Seq<char>, i: int)
    requires
        0 <= i <= t.len(),
        forall|j: int| 0 <= j < t.len() - 1 ==> !(t[j] == '/' && #[trigger] t[j + 1] == '*'),
        t.len() > 0 && z.len() > 0 ==> z[0] != '*',
    ensures
        outside_block(t + z, i) == t.subrange(i, t.len() as int) + outside_block(z, 0),
    decreases t.len() - i,
{
    if i < t.len() {
        assert((t + z)[i] == t[i]);
        if i + 1 < t.len() {
            assert((t + z)[i + 1] == t[i + 1]);
        } else if z.len() > 0 {
            assert((t + z)[i + 1] == z[0]);
        }
        outside_plain(t, z, i + 1);
        assert(t.subrange(i, t.len() as int) =~= seq![t[i]] + t.subrange(i + 1, t.len() as int));
    } else {
        block_shift(t, z, 0);
        assert(t.len() + 0 == t.len());
    }
}

pub(crate) proof fn closing_extend(t: Seq<char>, q: Seq<char>, j: int, depth: int)
    requires
        0 <= j,
        forall|k: int| 0 <= k < q.len() ==> #[trigger] q[k] != '{' && q[k] != '}',
    ensures
        closing(t + q, j, depth, '{', '}') == closing(t, j, depth, '{', '}'),
    decreases t.len() + q.len() - j,
{
    if j < t.len() + q.len() {
        if j < t.len() {
            assert((t + q)[j] == t[j]);
        } else {
            assert((t + q)[j] == q[j - t.len()]);
        }
        closing_extend(t, q, j + 1, depth + 1);
        closing_extend(t, q, j + 1, depth - 1);
        closing_extend(t, q, j + 1, depth);
    }
}

pub(crate) proof fn scopes_extend(t: Seq<char>, q: Seq<char>, i: int, from: int)
    requires
        0 <= i,
        forall|k: int| 0 <= k < q.len() ==> #[trigger] q[k] != '{' && q[k] != '}',
    ensures
        scopes_from(t + q, i, from) == scopes_from(t, i, from),
    decreases t.len() + q.len() - i,
{
    if i < t.len() + q.len() {
        closing_extend(t, q, i + 1, 1);
        if i < t.len() {
            assert((t + q)[i] == t[i]);
            closing_shift(Seq::empty(), t, i + 1, 1);
            assert(Seq::<char>::empty() + t =~= t);
            if i >= from && t[i] == '{' && closing(t, i + 1, 1, '{', '}') is Some {
                let c = closing(t, i + 1, 1, '{', '}')->0;
                assert((t + q).subrange(i, c + 1) =~= t.subrange(i, c + 1));
                scopes_extend(t, q, i + 1, c + 1);
            } else {
                scopes_extend(t, q, i + 1, from);
            }
        } else {
            assert((t + q)[i] == q[i - t.len()]);
            scopes_extend(t, q, i + 1, from);
        }
    }
}

/// Every line from the one that starts at `i` on is a `//` comment alone.
pub open spec fn all_comment_lines(d: Seq<char>, i: int) -> bool
    decreases d.len() - i,
{
    if i < 0 || i > d.len() {
        true
    } else {
        let e = line_end(d, i);
        comment_only(d, i) && (i <= e < d.len() ==> all_comment_lines(d, e + 1))
    }
}

} // verus!

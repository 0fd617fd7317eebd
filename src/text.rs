//! Characters, whitespace, and conversions between `str` and character vectors.
use substring::Substring;
use vstd::prelude::*;

verus! {

/// A character that `char::is_whitespace` accepts (Unicode `White_Space`).
pub open spec fn is_space(c: char) -> bool {
    let v = c as u32;
    v == 32 || (9 <= v && v <= 13) || v == 0x85 || v == 0xA0 || v == 0x1680 || (0x2000 <= v
        && v <= 0x200A) || v == 0x2028 || v == 0x2029 || v == 0x202F || v == 0x205F || v
        == 0x3000
}

/// A character of an identifier: an ASCII letter or digit, or `_`.
pub open spec fn is_word(c: char) -> bool {
    let v = c as u32;
    (48 <= v && v <= 57) || (65 <= v && v <= 90) || (97 <= v && v <= 122) || v == 95
}

pub fn space_char(c: char) -> (r: bool)
    ensures
        r == is_space(c),
{
    let v = c as u32;
    v == 32 || (9 <= v && v <= 13) || v == 0x85 || v == 0xA0 || v == 0x1680 || (0x2000 <= v
        && v <= 0x200A) || v == 0x2028 || v == 0x2029 || v == 0x202F || v == 0x205F || v
        == 0x3000
}

pub fn word_char(c: char) -> (r: bool)
    ensures
        r == is_word(c),
{
    let v = c as u32;
    (48 <= v && v <= 57) || (65 <= v && v <= 90) || (97 <= v && v <= 122) || v == 95
}

/// The first position in `[i, e)` that holds `ch`, or `e`.
pub open spec fn next_char(s: Seq<char>, i: int, e: int, ch: char) -> int
    decreases e - i,
{
    if i >= e {
        e
    } else if s[i] == ch {
        i
    } else {
        next_char(s, i + 1, e, ch)
    }
}

pub fn find_char(s: &Vec<char>, i: usize, e: usize, ch: char) -> (r: usize)
    requires
        i <= e <= s@.len(),
    ensures
        r == next_char(s@, i as int, e as int, ch),
        i <= r <= e,
{
    let mut j = i;
    while j < e && s[j] != ch
        invariant
            i <= j <= e,
            e <= s@.len(),
            next_char(s@, i as int, e as int, ch) == next_char(s@, j as int, e as int, ch),
        decreases e - j,
    {
        j = j + 1;
    }
    j
}

/// `s[a..b]` and `w` hold the same characters.
pub fn range_is(s: &Vec<char>, a: usize, b: usize, w: &Vec<char>) -> (r: bool)
    requires
        a <= b <= s@.len(),
    ensures
        r == (s@.subrange(a as int, b as int) == w@),
{
    if b - a != w.len() {
        return false;
    }
    let mut k: usize = 0;
    while k < w.len()
        invariant
            k <= w@.len(),
            b - a == w@.len(),
            b <= s@.len(),
            forall|m: int| 0 <= m < k ==> s@[a + m] == w@[m],
        decreases w@.len() - k,
    {
        if s[a + k] != w[k] {
            assert(s@.subrange(a as int, b as int)[k as int] != w@[k as int]);
            return false;
        }
        k = k + 1;
    }
    assert(s@.subrange(a as int, b as int) =~= w@);
    true
}

/// The characters of `s`, in order.
pub fn chars_of(s: &str) -> (r: Vec<char>)
    ensures
        r@ == s@,
{
    let mut v: Vec<char> = Vec::new();
    for c in it: s.chars()
        invariant
            v@ == it.seq().take(it.index() as int),
    {
        v.push(c);
        assert(v@ =~= it.seq().take(it.index() + 1));
    }
    v
}

/// Relies on `FromIterator<char>` for `String`: the characters, in order.
#[verifier::external_body]
pub(crate) fn string_of(v: &Vec<char>) -> (r: String)
    ensures
        r@ == v@,
{
    v.iter().collect()
}

/// Relies on `substring::Substring::substring`: the characters of `s` from
/// position `start` up to, not including, position `end`.
#[verifier::external_body]
pub(crate) fn cut(s: &str, start: usize, end: usize) -> (r: String)
    requires
        start <= end <= s@.len(),
    ensures
        r@ == s@.subrange(start as int, end as int),
{
    s.substring(start, end).to_owned()
}

} // verus!

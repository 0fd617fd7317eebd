//! Public function declarations inside a scope.
use crate::scope::{closing, find_closing};
use crate::text::{chars_of, cut, is_word, word_char};
use vstd::prelude::*;

verus! {

/// A declaration as it stands in the text, before its parameters are read.
#[derive(Debug, PartialEq, Eq)]
pub struct RawSignature {
    /// The attribute just before the declaration (`payable` in
    /// `#[payable] pub fn`); empty when there is none.
    pub tag: String,
    pub name: String,
    /// The parameter list with its enclosing parentheses.
    pub params: String,
    /// Empty when no `-> Type` follows the parameters.
    pub return_type: String,
}

pub struct SignatureView {
    pub tag: Seq<char>,
    pub name: Seq<char>,
    pub params: Seq<char>,
    pub return_type: Seq<char>,
}

impl View for RawSignature {
    type V = SignatureView;

    open spec fn view(&self) -> SignatureView {
        SignatureView {
            tag: self.tag@,
            name: self.name@,
            params: self.params@,
            return_type: self.return_type@,
        }
    }
}

/// The end of the run of identifier characters that starts at `j`.
pub open spec fn word_end(u: Seq<char>, j: int) -> int
    decreases u.len() - j,
{
    if 0 <= j < u.len() && is_word(u[j]) {
        word_end(u, j + 1)
    } else {
        j
    }
}

/// `w` stands in `u` at position `j`.
pub open spec fn has_at(u: Seq<char>, j: int, w: Seq<char>) -> bool {
    0 <= j && j + w.len() <= u.len() && u.subrange(j, j + w.len()) == w
}

pub open spec fn fn_keyword() -> Seq<char> {
    seq!['p', 'u', 'b', ' ', 'f', 'n', ' ']
}

pub open spec fn arrow() -> Seq<char> {
    seq!['-', '>', ' ']
}

/// The declaration `pub fn name(params) ` at `p`, with `-> Ret` after it when
/// present, and the position where it ends.
pub open spec fn declaration_at(u: Seq<char>, p: int, tag: Seq<char>) -> Option<
    (SignatureView, int),
> {
    let n0 = p + 7;
    let n1 = word_end(u, n0);
    if has_at(u, p, fn_keyword()) && n1 < u.len() && u[n1] == '(' && closing(
        u,
        n1 + 1,
        1,
        '(',
        ')',
    ) is Some {
        let c = closing(u, n1 + 1, 1, '(', ')')->0;
        let r0 = c + 2;
        let with_arrow = has_at(u, r0, arrow());
        let rlo = if with_arrow {
            r0 + 3
        } else {
            r0
        };
        let rhi = if with_arrow {
            word_end(u, r0 + 3)
        } else {
            r0
        };
        if c + 1 < u.len() && u[c + 1] == ' ' {
            Some(
                (
                    SignatureView {
                        tag,
                        name: u.subrange(n0, n1),
                        params: u.subrange(n1, c + 1),
                        return_type: u.subrange(rlo, rhi),
                    },
                    rhi,
                ),
            )
        } else {
            None
        }
    } else {
        None
    }
}

/// The declaration found at `q`: one preceded by `#[tag] ` when that form
/// stands at `q`, else one that starts at `q` with no tag.
pub open spec fn match_at(u: Seq<char>, q: int) -> Option<(SignatureView, int)> {
    let w = word_end(u, q + 2);
    if 0 <= q && q + 1 < u.len() && u[q] == '#' && u[q + 1] == '[' && w + 1 < u.len() && u[w]
        == ']' && u[w + 1] == ' ' && declaration_at(u, w + 2, u.subrange(q + 2, w)) is Some {
        declaration_at(u, w + 2, u.subrange(q + 2, w))
    } else {
        declaration_at(u, q, Seq::empty())
    }
}

/// The declarations found from `q` on, none starting before `from`, the end
/// of the previous one.
pub open spec fn signatures_from(u: Seq<char>, q: int, from: int) -> Seq<SignatureView>
    decreases u.len() - q,
{
    if q < 0 || q >= u.len() {
        Seq::empty()
    } else if q >= from && match_at(u, q) is Some {
        let (sig, end) = match_at(u, q)->0;
        seq![sig] + signatures_from(u, q + 1, end)
    } else {
        signatures_from(u, q + 1, from)
    }
}

/// The declarations of a scope, in order.
pub open spec fn signature_views(u: Seq<char>) -> Seq<SignatureView> {
    signatures_from(u, 0, 0)
}

fn find_word_end(u: &Vec<char>, j: usize) -> (r: usize)
    requires
        j <= u@.len(),
    ensures
        r == word_end(u@, j as int),
        j <= r <= u@.len(),
{
    let mut k = j;
    while k < u.len() && word_char(u[k])
        invariant
            j <= k <= u@.len(),
            word_end(u@, j as int) == word_end(u@, k as int),
        decreases u@.len() - k,
    {
        k = k + 1;
    }
    k
}

fn text_at(u: &Vec<char>, j: usize, w: &Vec<char>) -> (r: bool)
    ensures
        r == has_at(u@, j as int, w@),
{
    let n = u.len();
    if j > n || w.len() > n - j {
        return false;
    }
    let mut k: usize = 0;
    while k < w.len()
        invariant
            k <= w@.len(),
            n == u@.len(),
            j + w@.len() <= u@.len(),
            forall|m: int| 0 <= m < k ==> u@[j + m] == w@[m],
        decreases w@.len() - k,
    {
        if u[j + k] != w[k] {
            assert(u@.subrange(j as int, j + w@.len())[k as int] != w@[k as int]);
            return false;
        }
        k = k + 1;
    }
    assert(u@.subrange(j as int, j + w@.len()) =~= w@);
    true
}

fn find_declaration(scope: &str, u: &Vec<char>, p: usize, tag: String) -> (r: Option<
    (RawSignature, usize),
>)
    requires
        u@ == scope@,
        p <= u@.len(),
    ensures
        r matches Some((sig, end)) ==> declaration_at(u@, p as int, tag@) == Some(
            (sig@, end as int),
        ) && p < end <= u@.len(),
        r is None ==> declaration_at(u@, p as int, tag@) is None,
{
    let keyword = vec!['p', 'u', 'b', ' ', 'f', 'n', ' '];
    let n = u.len();
    assert(keyword@ =~= fn_keyword());
    if !text_at(u, p, &keyword) {
        return None;
    }
    let n0 = p + 7;
    let n1 = find_word_end(u, n0);
    if n1 >= u.len() || u[n1] != '(' {
        return None;
    }
    match find_closing(u, n1 + 1, '(', ')') {
        None => None,
        Some(c) => {
            if c + 1 >= u.len() || u[c + 1] != ' ' {
                return None;
            }
            let r0 = c + 2;
            let arrow_chars = vec!['-', '>', ' '];
            assert(arrow_chars@ =~= arrow());
            let with_arrow = text_at(u, r0, &arrow_chars);
            let rlo = if with_arrow {
                r0 + 3
            } else {
                r0
            };
            let rhi = if with_arrow {
                find_word_end(u, r0 + 3)
            } else {
                r0
            };
            let sig = RawSignature {
                tag,
                name: cut(scope, n0, n1),
                params: cut(scope, n1, c + 1),
                return_type: cut(scope, rlo, rhi),
            };
            Some((sig, rhi))
        },
    }
}

fn find_match(scope: &str, u: &Vec<char>, q: usize) -> (r: Option<(RawSignature, usize)>)
    requires
        u@ == scope@,
        q < u@.len(),
    ensures
        r matches Some((sig, end)) ==> match_at(u@, q as int) == Some((sig@, end as int)) && q
            < end <= u@.len(),
        r is None ==> match_at(u@, q as int) is None,
{
    let n = u.len();
    if q + 1 < n && u[q] == '#' && u[q + 1] == '[' {
        let w = find_word_end(u, q + 2);
        if w < u.len() && w + 1 < u.len() && u[w] == ']' && u[w + 1] == ' ' {
            let tag = cut(scope, q + 2, w);
            match find_declaration(scope, u, w + 2, tag) {
                Some(m) => {
                    return Some(m);
                },
                None => {},
            }
        }
    }
    find_declaration(scope, u, q, String::new())
}

/// The declarations of `scope`: see `signature_views`.
pub fn signatures(scope: &str) -> (r: Vec<RawSignature>)
    ensures
        r@.map_values(|x: RawSignature| x@) == signature_views(scope@),
{
    let u = chars_of(scope);
    let mut out: Vec<RawSignature> = Vec::new();
    let mut q: usize = 0;
    let mut from: usize = 0;
    while q < u.len()
        invariant
            q <= u@.len(),
            u@ == scope@,
            out@.map_values(|x: RawSignature| x@) + signatures_from(u@, q as int, from as int)
                == signature_views(u@),
        decreases u@.len() - q,
    {
        let ghost before = out@.map_values(|x: RawSignature| x@);
        if q >= from {
            match find_match(scope, &u, q) {
                Some((sig, end)) => {
                    let ghost piece = seq![sig@];
                    out.push(sig);
                    assert(out@.map_values(|x: RawSignature| x@) =~= before + piece);
                    assert(signatures_from(u@, q as int, from as int) == piece + signatures_from(
                        u@,
                        q + 1,
                        end as int,
                    ));
                    assert(before + piece + signatures_from(u@, q + 1, end as int) =~= before + (
                    piece + signatures_from(u@, q + 1, end as int)));
                    from = end;
                },
                None => {},
            }
        }
        q = q + 1;
    }
    out
}

} // verus!

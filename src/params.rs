//! Parameter lists: the receiver and the named parameters, in order.
use crate::classify::Receiver;
use crate::normalize::{find_non_space, find_trim_end, skip_space, trim_end};
use crate::text::{chars_of, cut, find_char, next_char, range_is};
use vstd::prelude::*;

verus! {

/// One named parameter of a function.
#[derive(Debug, PartialEq, Eq)]
pub struct ContractParam {
    pub name: String,
    pub param_type: String,
}

impl View for ContractParam {
    type V = (Seq<char>, Seq<char>);

    open spec fn view(&self) -> (Seq<char>, Seq<char>) {
        (self.name@, self.param_type@)
    }
}

/// Why a declaration's parameter list cannot be read.
#[derive(Clone, Copy, Debug, PartialEq, Eq, Structural)]
pub enum ParseError {
    /// A parameter with more than one `:`, or with nothing after its `:`.
    MalformedSignature,
    /// A parameter with no `:` that is no form of `self`.
    UnresolvedReceiver,
}

/// A receiver and the named parameters, as pairs of name and type.
pub type ParamsView = (Receiver, Seq<(Seq<char>, Seq<char>)>);

/// What one comma-separated piece of a parameter list stands for.
pub enum ParamToken {
    Blank,
    SelfRef(Receiver),
    Named(Seq<char>, Seq<char>),
}

/// `s[a..b]` without its leading and trailing whitespace.
pub open spec fn trimmed(s: Seq<char>, a: int, b: int) -> Seq<char> {
    let x = skip_space(s, a, b);
    s.subrange(x, trim_end(s, x, b))
}

/// The receiver that a parameter without `:` names: `&mut self` is mutable;
/// `&self`, `self` and `mut self` are not.
pub open spec fn receiver_named(t: Seq<char>) -> Option<Receiver> {
    if t == seq!['&', 'm', 'u', 't', ' ', 's', 'e', 'l', 'f'] {
        Some(Receiver::Mutable)
    } else if t == seq!['&', 's', 'e', 'l', 'f'] || t == seq!['s', 'e', 'l', 'f'] || t == seq![
        'm',
        'u',
        't',
        ' ',
        's',
        'e',
        'l',
        'f',
    ] {
        Some(Receiver::Immutable)
    } else {
        None
    }
}

/// The piece `c[i..e]`: blank, a receiver, or `name: type` split at its one
/// colon, both sides trimmed.
pub open spec fn param_token(c: Seq<char>, i: int, e: int) -> Result<ParamToken, ParseError> {
    let k = next_char(c, i, e, ':');
    if k == e {
        let t = trimmed(c, i, e);
        if t.len() == 0 {
            Ok(ParamToken::Blank)
        } else {
            match receiver_named(t) {
                Some(r) => Ok(ParamToken::SelfRef(r)),
                None => Err(ParseError::UnresolvedReceiver),
            }
        }
    } else if next_char(c, k + 1, e, ':') < e {
        Err(ParseError::MalformedSignature)
    } else if trimmed(c, k + 1, e).len() == 0 {
        Err(ParseError::MalformedSignature)
    } else {
        Ok(ParamToken::Named(trimmed(c, i, k), trimmed(c, k + 1, e)))
    }
}

/// The pieces from the one that starts at `i` on, read into the receiver and
/// the named parameters `acc` found so far; the first bad piece is the error.
pub open spec fn params_from(
    c: Seq<char>,
    i: int,
    receiver: Receiver,
    acc: Seq<(Seq<char>, Seq<char>)>,
) -> Result<(Receiver, Seq<(Seq<char>, Seq<char>)>), ParseError>
    decreases c.len() - i,
{
    if i < 0 || i > c.len() {
        Ok((receiver, acc))
    } else {
        let e = next_char(c, i, c.len() as int, ',');
        match param_token(c, i, e) {
            Err(x) => Err(x),
            Ok(t) => {
                let r2 = match t {
                    ParamToken::SelfRef(r) => r,
                    _ => receiver,
                };
                let acc2 = match t {
                    ParamToken::Named(n, ty) => acc.push((n, ty)),
                    _ => acc,
                };
                if i <= e < c.len() {
                    params_from(c, e + 1, r2, acc2)
                } else {
                    Ok((r2, acc2))
                }
            },
        }
    }
}

/// A parameter list without its first and last character, its parentheses.
pub open spec fn param_content(p: Seq<char>) -> Seq<char> {
    if p.len() >= 2 {
        p.subrange(1, p.len() - 1)
    } else {
        Seq::empty()
    }
}

/// The receiver and the named parameters of a parameter list `(...)`.
pub open spec fn parsed_params(p: Seq<char>) -> Result<
    (Receiver, Seq<(Seq<char>, Seq<char>)>),
    ParseError,
> {
    params_from(param_content(p), 0, Receiver::Absent, Seq::empty())
}

fn trimmed_range(c: &Vec<char>, i: usize, e: usize) -> (r: (usize, usize))
    requires
        i <= e <= c@.len(),
    ensures
        i <= r.0 <= r.1 <= e,
        r.0 == skip_space(c@, i as int, e as int),
        c@.subrange(r.0 as int, r.1 as int) == trimmed(c@, i as int, e as int),
{
    let a = find_non_space(c, i, e);
    let b = find_trim_end(c, a, e);
    (a, b)
}

fn receiver_of(c: &Vec<char>, a: usize, b: usize) -> (r: Option<Receiver>)
    requires
        a <= b <= c@.len(),
    ensures
        r == receiver_named(c@.subrange(a as int, b as int)),
{
    let mut_self = vec!['&', 'm', 'u', 't', ' ', 's', 'e', 'l', 'f'];
    let ref_self = vec!['&', 's', 'e', 'l', 'f'];
    let bare_self = vec!['s', 'e', 'l', 'f'];
    let owned_mut_self = vec!['m', 'u', 't', ' ', 's', 'e', 'l', 'f'];
    assert(mut_self@ =~= seq!['&', 'm', 'u', 't', ' ', 's', 'e', 'l', 'f']);
    assert(ref_self@ =~= seq!['&', 's', 'e', 'l', 'f']);
    assert(bare_self@ =~= seq!['s', 'e', 'l', 'f']);
    assert(owned_mut_self@ =~= seq!['m', 'u', 't', ' ', 's', 'e', 'l', 'f']);
    if range_is(c, a, b, &mut_self) {
        Some(Receiver::Mutable)
    } else if range_is(c, a, b, &ref_self) || range_is(c, a, b, &bare_self) || range_is(
        c,
        a,
        b,
        &owned_mut_self,
    ) {
        Some(Receiver::Immutable)
    } else {
        None
    }
}

/// Reads a parameter list written with its parentheses: see `parsed_params`.
/// Pieces are split at every comma and each named one at its colon; blank
/// pieces are passed over.
pub fn parse_params_(params_string: String) -> (r: Result<
    (Receiver, Vec<ContractParam>),
    ParseError,
>)
    ensures
        r matches Ok((rc, ps)) ==> parsed_params(params_string@) == Ok::<ParamsView, ParseError>(
            (rc, ps@.map_values(|x: ContractParam| x@)),
        ),
        r matches Err(x) ==> parsed_params(params_string@) == Err::<ParamsView, ParseError>(x),
{
    let p = chars_of(params_string.as_str());
    let n = p.len();
    let content = if n >= 2 {
        cut(params_string.as_str(), 1, n - 1)
    } else {
        String::new()
    };
    let c = chars_of(content.as_str());
    assert(c@ =~= param_content(params_string@));
    let len = c.len();
    let mut i: usize = 0;
    let mut receiver = Receiver::Absent;
    let mut out: Vec<ContractParam> = Vec::new();
    assert(out@.map_values(|x: ContractParam| x@) =~= Seq::empty());
    loop
        invariant
            i <= len,
            len == c@.len(),
            c@ == content@,
            c@ == param_content(params_string@),
            params_from(c@, i as int, receiver, out@.map_values(|x: ContractParam| x@))
                == parsed_params(params_string@),
        decreases len - i,
    {
        let ghost acc = out@.map_values(|x: ContractParam| x@);
        let e = find_char(&c, i, len, ',');
        let k = find_char(&c, i, e, ':');
        if k == e {
            let (a, b) = trimmed_range(&c, i, e);
            if a < b {
                match receiver_of(&c, a, b) {
                    Some(rc) => {
                        receiver = rc;
                    },
                    None => {
                        return Err(ParseError::UnresolvedReceiver);
                    },
                }
            }
        } else {
            let k2 = find_char(&c, k + 1, e, ':');
            if k2 < e {
                return Err(ParseError::MalformedSignature);
            }
            let (ta, tb) = trimmed_range(&c, k + 1, e);
            if ta == tb {
                return Err(ParseError::MalformedSignature);
            }
            let (na, nb) = trimmed_range(&c, i, k);
            let param = ContractParam {
                name: cut(content.as_str(), na, nb),
                param_type: cut(content.as_str(), ta, tb),
            };
            out.push(param);
            assert(out@.map_values(|x: ContractParam| x@) =~= acc.push(
                (trimmed(c@, i as int, k as int), trimmed(c@, k + 1, e as int)),
            ));
        }
        if e < len {
            i = e + 1;
        } else {
            return Ok((receiver, out));
        }
    }
}

} // verus!

//! The interface description: every public function of every scope, in order.
use crate::classify::{classification, classify, tag_named, tag_of, FunctionType};
use crate::normalize::{normalize, normalized};
use crate::params::{parse_params_, parsed_params, ContractParam, ParseError};
use crate::scope::{scope_texts, scopes};
use crate::signature::{signature_views, signatures, RawSignature, SignatureView};
use vstd::prelude::*;

verus! {

/// One function of the interface.
#[derive(Debug, PartialEq, Eq)]
pub struct ContractFunction {
    pub name: String,
    /// Empty when the function returns nothing.
    pub return_type: String,
    pub params: Vec<ContractParam>,
    pub fn_type: FunctionType,
}

pub struct FunctionView {
    pub name: Seq<char>,
    pub return_type: Seq<char>,
    pub params: Seq<(Seq<char>, Seq<char>)>,
    pub fn_type: FunctionType,
}

impl View for ContractFunction {
    type V = FunctionView;

    open spec fn view(&self) -> FunctionView {
        FunctionView {
            name: self.name@,
            return_type: self.return_type@,
            params: self.params@.map_values(|p: ContractParam| p@),
            fn_type: self.fn_type,
        }
    }
}

/// A declaration whose parameters could not be read, and where it stands.
#[derive(Debug, PartialEq, Eq)]
pub struct DeclarationError {
    pub name: String,
    /// The position of its scope among the scopes of the text.
    pub scope: usize,
    pub error: ParseError,
}

pub struct DeclarationErrorView {
    pub name: Seq<char>,
    pub scope: int,
    pub error: ParseError,
}

impl View for DeclarationError {
    type V = DeclarationErrorView;

    open spec fn view(&self) -> DeclarationErrorView {
        DeclarationErrorView { name: self.name@, scope: self.scope as int, error: self.error }
    }
}

pub type Outcome = Result<FunctionView, DeclarationErrorView>;

pub open spec fn outcome_view(o: Result<ContractFunction, DeclarationError>) -> Outcome {
    match o {
        Ok(f) => Ok(f@),
        Err(e) => Err(e@),
    }
}

/// The function that a declaration describes, or why it cannot be read.
pub open spec fn described(s: SignatureView) -> Result<FunctionView, ParseError> {
    match parsed_params(s.params) {
        Err(x) => Err(x),
        Ok((receiver, params)) => Ok(
            FunctionView {
                name: s.name,
                return_type: s.return_type,
                params,
                fn_type: classification(tag_named(s.tag), receiver),
            },
        ),
    }
}

pub open spec fn outcome_of(s: SignatureView, k: int) -> Outcome {
    match described(s) {
        Ok(f) => Ok(f),
        Err(x) => Err(DeclarationErrorView { name: s.name, scope: k, error: x }),
    }
}

/// The outcomes of the declarations of scope `u`, the `k`-th of the text.
pub open spec fn scope_outcomes(u: Seq<char>, k: int) -> Seq<Outcome> {
    signature_views(u).map_values(|s: SignatureView| outcome_of(s, k))
}

/// The outcomes of the declarations of the first `n` scopes, in order.
pub open spec fn outcomes_in(scopes: Seq<Seq<char>>, n: int) -> Seq<Outcome>
    decreases n,
{
    if n <= 0 {
        Seq::empty()
    } else {
        outcomes_in(scopes, n - 1) + scope_outcomes(scopes[n - 1], n - 1)
    }
}

/// The outcome of every declaration of a source text, in order.
pub open spec fn declarations(s: Seq<char>) -> Seq<Outcome> {
    let scopes = scope_texts(normalized(s));
    outcomes_in(scopes, scopes.len() as int)
}

/// The functions among `outs` that were read and are not private, in order.
pub open spec fn published(outs: Seq<Outcome>) -> Seq<FunctionView>
    decreases outs.len(),
{
    if outs.len() == 0 {
        Seq::empty()
    } else {
        published(outs.drop_last()) + match outs.last() {
            Ok(f) => if f.fn_type != FunctionType::PRIVATE {
                seq![f]
            } else {
                Seq::empty()
            },
            Err(_) => Seq::empty(),
        }
    }
}

/// The interface of a source text.
pub open spec fn abi_of(s: Seq<char>) -> Seq<FunctionView> {
    published(declarations(s))
}

/// The function that `sig` declares: see `described`.
pub fn describe(sig: &RawSignature) -> (r: Result<ContractFunction, ParseError>)
    ensures
        r matches Ok(f) ==> described(sig@) == Ok::<FunctionView, ParseError>(f@),
        r matches Err(x) ==> described(sig@) == Err::<FunctionView, ParseError>(x),
{
    match parse_params_(sig.params.clone()) {
        Err(x) => Err(x),
        Ok((receiver, params)) => {
            let fn_type = classify(tag_of(sig.tag.as_str()), receiver);
            Ok(
                ContractFunction {
                    name: sig.name.clone(),
                    return_type: sig.return_type.clone(),
                    params,
                    fn_type,
                },
            )
        },
    }
}

/// The outcome of every public declaration of `source`, private ones
/// included: see `declarations`.
pub fn scan_declarations(source: &str) -> (r: Vec<Result<ContractFunction, DeclarationError>>)
    ensures
        r@.map_values(|o: Result<ContractFunction, DeclarationError>| outcome_view(o))
            == declarations(source@),
{
    let text = normalize(source);
    let found = scopes(text.as_str());
    let ghost views = found@.map_values(|x: String| x@);
    let mut out: Vec<Result<ContractFunction, DeclarationError>> = Vec::new();
    let mut k: usize = 0;
    assert(out@.map_values(|o: Result<ContractFunction, DeclarationError>| outcome_view(o))
        =~= outcomes_in(views, 0));
    while k < found.len()
        invariant
            k <= found@.len(),
            views == found@.map_values(|x: String| x@),
            views == scope_texts(normalized(source@)),
            out@.map_values(|o: Result<ContractFunction, DeclarationError>| outcome_view(o))
                == outcomes_in(views, k as int),
        decreases found@.len() - k,
    {
        let sigs = signatures(found[k].as_str());
        let ghost sig_views = sigs@.map_values(|x: RawSignature| x@);
        let ghost start = out@.map_values(
            |o: Result<ContractFunction, DeclarationError>| outcome_view(o),
        );
        assert(sig_views == signature_views(views[k as int]));
        let mut j: usize = 0;
        assert(start + scope_outcomes(views[k as int], k as int).take(0) =~= start);
        while j < sigs.len()
            invariant
                j <= sigs@.len(),
                k < found@.len(),
                sig_views == sigs@.map_values(|x: RawSignature| x@),
                sig_views == signature_views(views[k as int]),
                out@.map_values(|o: Result<ContractFunction, DeclarationError>| outcome_view(o))
                    == start + scope_outcomes(views[k as int], k as int).take(j as int),
            decreases sigs@.len() - j,
        {
            let ghost before = out@.map_values(
                |o: Result<ContractFunction, DeclarationError>| outcome_view(o),
            );
            let sig = &sigs[j];
            let outcome = match describe(sig) {
                Ok(f) => Ok(f),
                Err(x) => Err(DeclarationError { name: sig.name.clone(), scope: k, error: x }),
            };
            assert(outcome_view(outcome) == outcome_of(sig_views[j as int], k as int));
            out.push(outcome);
            assert(out@.map_values(|o: Result<ContractFunction, DeclarationError>| outcome_view(o))
                =~= before.push(outcome_view(outcome)));
            assert(start + scope_outcomes(views[k as int], k as int).take(j + 1) =~= (start
                + scope_outcomes(views[k as int], k as int).take(j as int)).push(
                outcome_view(outcome),
            ));
            j = j + 1;
        }
        assert(scope_outcomes(views[k as int], k as int).take(j as int) =~= scope_outcomes(
            views[k as int],
            k as int,
        ));
        k = k + 1;
    }
    out
}

/// The interface of `source`: the functions read from its public
/// declarations, in order, without the private ones and without those whose
/// parameters could not be read. See `abi_of`.
pub fn extract_abi(source: &str) -> (r: Vec<ContractFunction>)
    ensures
        r@.map_values(|f: ContractFunction| f@) == abi_of(source@),
{
    let outcomes = scan_declarations(source);
    let ghost outs = outcomes@.map_values(
        |o: Result<ContractFunction, DeclarationError>| outcome_view(o),
    );
    let mut abi: Vec<ContractFunction> = Vec::new();
    assert(abi@.map_values(|f: ContractFunction| f@) =~= published(outs.take(0)));
    for o in it: outcomes
        invariant
            outs == it.seq().map_values(
                |o: Result<ContractFunction, DeclarationError>| outcome_view(o),
            ),
            abi@.map_values(|f: ContractFunction| f@) == published(outs.take(it.index() as int)),
    {
        let ghost before = abi@.map_values(|f: ContractFunction| f@);
        let ghost i = it.index() as int;
        assert(outs.take(i + 1).drop_last() =~= outs.take(i));
        assert(outs.take(i + 1).last() == outcome_view(o));
        match o {
            Ok(f) => {
                if f.fn_type != FunctionType::PRIVATE {
                    abi.push(f);
                    assert(abi@.map_values(|f: ContractFunction| f@) =~= before.push(f@));
                    assert(before.push(f@) =~= before + seq![f@]);
                } else {
                    assert(before =~= before + Seq::<FunctionView>::empty());
                }
            },
            Err(_) => {
                assert(before =~= before + Seq::<FunctionView>::empty());
            },
        }
    }
    assert(outs.take(outs.len() as int) =~= outs);
    abi
}

} // verus!

//! The semantic role of a function.
use crate::text::{chars_of, range_is};
use vstd::prelude::*;

verus! {

/// What a function does to the contract, as far as its declaration tells.
#[allow(non_camel_case_types)]
#[derive(Clone, Copy, Debug, PartialEq, Eq, Structural)]
pub enum FunctionType {
    READ,
    WRITE,
    PAYABLE,
    INIT,
    PRIVATE,
    UNKNOWN,
}

/// An attribute that decides a function's role whatever its receiver.
#[derive(Clone, Copy, Debug, PartialEq, Eq, Structural)]
pub enum FunctionTag {
    Init,
    Private,
    Payable,
}

/// How a function takes the contract: `&mut self`, another form of `self`,
/// or not at all.
#[derive(Clone, Copy, Debug, PartialEq, Eq, Structural)]
pub enum Receiver {
    Mutable,
    Immutable,
    Absent,
}

/// The tag that an attribute's text names, if any.
pub open spec fn tag_named(text: Seq<char>) -> Option<FunctionTag> {
    if text == seq!['i', 'n', 'i', 't'] {
        Some(FunctionTag::Init)
    } else if text == seq!['p', 'r', 'i', 'v', 'a', 't', 'e'] {
        Some(FunctionTag::Private)
    } else if text == seq!['p', 'a', 'y', 'a', 'b', 'l', 'e'] {
        Some(FunctionTag::Payable)
    } else {
        None
    }
}

/// The role of a function: a tag decides; without one, the receiver does.
pub open spec fn classification(tag: Option<FunctionTag>, receiver: Receiver) -> FunctionType {
    match tag {
        Some(FunctionTag::Init) => FunctionType::INIT,
        Some(FunctionTag::Payable) => FunctionType::PAYABLE,
        Some(FunctionTag::Private) => FunctionType::PRIVATE,
        None => match receiver {
            Receiver::Mutable => FunctionType::WRITE,
            Receiver::Immutable => FunctionType::READ,
            Receiver::Absent => FunctionType::UNKNOWN,
        },
    }
}

/// The tag that `text` names: `init`, `private` or `payable`; any other
/// attribute, or none, gives `None`.
pub fn tag_of(text: &str) -> (r: Option<FunctionTag>)
    ensures
        r == tag_named(text@),
{
    let t = chars_of(text);
    let n = t.len();
    let init = vec!['i', 'n', 'i', 't'];
    let private = vec!['p', 'r', 'i', 'v', 'a', 't', 'e'];
    let payable = vec!['p', 'a', 'y', 'a', 'b', 'l', 'e'];
    assert(t@.subrange(0, n as int) =~= t@);
    assert(init@ =~= seq!['i', 'n', 'i', 't']);
    assert(private@ =~= seq!['p', 'r', 'i', 'v', 'a', 't', 'e']);
    assert(payable@ =~= seq!['p', 'a', 'y', 'a', 'b', 'l', 'e']);
    if range_is(&t, 0, n, &init) {
        Some(FunctionTag::Init)
    } else if range_is(&t, 0, n, &private) {
        Some(FunctionTag::Private)
    } else if range_is(&t, 0, n, &payable) {
        Some(FunctionTag::Payable)
    } else {
        None
    }
}

/// The role of a function with this tag and receiver: see `classification`.
pub fn classify(tag: Option<FunctionTag>, receiver: Receiver) -> (r: FunctionType)
    ensures
        r == classification(tag, receiver),
{
    match tag {
        Some(FunctionTag::Init) => FunctionType::INIT,
        Some(FunctionTag::Payable) => FunctionType::PAYABLE,
        Some(FunctionTag::Private) => FunctionType::PRIVATE,
        None => match receiver {
            Receiver::Mutable => FunctionType::WRITE,
            Receiver::Immutable => FunctionType::READ,
            Receiver::Absent => FunctionType::UNKNOWN,
        },
    }
}

} // verus!

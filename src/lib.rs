//! Extraction of a contract's interface description from its source text.
//!
//! The engine normalizes the text, isolates balanced `{ ... }` scopes, finds
//! the public function declarations in them, parses their parameter lists and
//! classifies each function.
mod text;
pub mod normalize;
pub mod scope;
pub mod signature;
pub mod classify;
pub mod params;
pub mod abi;
mod lemmas;
pub mod laws;

pub use abi::{describe, extract_abi, scan_declarations, ContractFunction, DeclarationError};
pub use classify::{classify, tag_of, FunctionTag, FunctionType, Receiver};
pub use normalize::normalize;
pub use params::{parse_params_, ContractParam, ParseError};
pub use scope::scopes;
pub use signature::{signatures, RawSignature};

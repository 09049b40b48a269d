pub mod account;
pub mod decimal;
pub mod error;
pub mod json;
pub mod orders;
pub mod response;

use vstd::prelude::*;

verus! {

/// A failure while interpreting wire data.
#[derive(Clone, Copy, PartialEq, Eq, Structural, Debug)]
pub enum DecodeError {
    /// A decimal field's wire string failed to parse as a base-10 numeral
    /// at the working precision.
    MalformedNumber,
    /// A string tag did not match any known enum variant.
    UnrecognizedEnumTag,
    /// A response body did not have the expected JSON shape.
    MalformedBody,
}

} // verus!

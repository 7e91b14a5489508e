//! The failures that the library reports.

use vstd::prelude::*;
use vstd::string::StringExecFns;

verus! {

/// A failure that carries nothing but its description.
#[derive(Debug)]
pub enum Error {
    Generic(String),
}

impl Error {
    /// The description the failure was made with.
    pub open spec fn description(&self) -> Seq<char> {
        match self {
            Error::Generic(text) => text@,
        }
    }

    /// What a reader is shown of the failure: the word `error`, a colon and
    /// a space, then the description.
    pub open spec fn shown(&self) -> Seq<char> {
        "error: "@ + self.description()
    }

    /// What a reader is shown of the failure.
    pub fn message(&self) -> (text: String)
        ensures
            text@ == self.shown(),
    {
        match self {
            Error::Generic(description) => "error: ".to_string().concat(description.as_str()),
        }
    }
}

/// Why a stream could not be read, or a value not be written.
///
/// Every variant carries a description for a human reader; what decides the
/// variant is stated in the contract of the function that returns it.
#[derive(Debug)]
pub enum ParsideError {
    /// The leading byte of a stream announces no known encoding domain.
    Classification(String),
    /// A counter is malformed, cut short, names no known group, or cannot
    /// hold the count asked of it.
    Framing(String),
    /// A primitive inside a group is malformed or cut short.
    PrimitiveDecode(String),
    /// The operation is not defined for the value or the domain it was asked for.
    UnsupportedOperation(String),
}

pub type ParsideResult<T> = Result<T, ParsideError>;

impl ParsideError {
    /// The description the failure was made with.
    pub open spec fn description(&self) -> Seq<char> {
        match self {
            ParsideError::Classification(text) => text@,
            ParsideError::Framing(text) => text@,
            ParsideError::PrimitiveDecode(text) => text@,
            ParsideError::UnsupportedOperation(text) => text@,
        }
    }

    /// A copy of the description.
    pub fn message(&self) -> (text: String)
        ensures
            text@ == self.description(),
    {
        match self {
            ParsideError::Classification(text) => text.clone(),
            ParsideError::Framing(text) => text.clone(),
            ParsideError::PrimitiveDecode(text) => text.clone(),
            ParsideError::UnsupportedOperation(text) => text.clone(),
        }
    }
}

} // verus!

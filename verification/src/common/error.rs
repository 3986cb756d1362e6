//! The kinds of failure that calls and rounds can end in.

use vstd::prelude::*;

verus! {

/// Why a call was refused or a round was abandoned.
#[derive(Clone, Copy, Debug, PartialEq, Eq, Structural)]
pub enum Error {
    /// The caller handed in something malformed or not acceptable in the
    /// current state: a field of the wrong width, a reveal without a matching
    /// commitment, a signature that does not verify.
    InvalidArgument,
    /// A failure that the caller's input did not cause.
    Internal,
    /// The contract has no finalized block yet.
    NotFound,
    /// A round's deadline passed before its phase gathered a quorum. Only
    /// ever reported through a round event, never as the error of a call.
    Timeout,
}

impl Error {
    /// The text that describes this kind of failure to a person.
    pub open spec fn description_text(self) -> Seq<char> {
        match self {
            Error::InvalidArgument => "invalid argument"@,
            Error::Internal => "internal error"@,
            Error::NotFound => "not found"@,
            Error::Timeout => "round timed out"@,
        }
    }

    /// A human-readable description of the failure.
    pub fn description(&self) -> (text: String)
        ensures
            text@ == self.description_text(),
    {
        match self {
            Error::InvalidArgument => "invalid argument".to_owned(),
            Error::Internal => "internal error".to_owned(),
            Error::NotFound => "not found".to_owned(),
            Error::Timeout => "round timed out".to_owned(),
        }
    }
}

} // verus!

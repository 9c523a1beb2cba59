//! The failures a digest request can end in.

use vstd::prelude::*;
use vstd::string::*;

verus! {

/// Why a request produced no output.
#[derive(Debug, PartialEq, Eq)]
pub enum DigestError {
    /// The input could not be opened or read; carries the cause as text.
    Io(String),
    /// The requested algorithm is no leaf of the registry.
    UnknownAlgorithm(String),
    /// The requested encoding is not one of the supported names.
    UnknownEncoding(String),
    /// Neither a listing nor an algorithm together with an input was asked for.
    InvalidInvocation,
}

impl DigestError {
    /// The diagnostic that tells a user what went wrong.
    pub open spec fn description(self) -> Seq<char> {
        match self {
            DigestError::Io(cause) => "I/O error: "@ + cause@,
            DigestError::UnknownAlgorithm(name) => "Unknown algorithm: "@ + name@,
            DigestError::UnknownEncoding(name) => "Unknown encoding: "@ + name@,
            DigestError::InvalidInvocation => "Opts are unhandled! Please refer to the developers."@,
        }
    }

    /// Renders the diagnostic of this error.
    pub fn describe(&self) -> (message: String)
        ensures
            message@ == self.description(),
    {
        match self {
            DigestError::Io(cause) => String::from_str("I/O error: ").concat(cause.as_str()),
            DigestError::UnknownAlgorithm(name) => String::from_str("Unknown algorithm: ").concat(
                name.as_str(),
            ),
            DigestError::UnknownEncoding(name) => String::from_str("Unknown encoding: ").concat(
                name.as_str(),
            ),
            DigestError::InvalidInvocation => String::from_str(
                "Opts are unhandled! Please refer to the developers.",
            ),
        }
    }
}

} // verus!

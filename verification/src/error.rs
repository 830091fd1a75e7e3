//! The errors of argument parsing.

use vstd::prelude::*;

use crate::text::concat;

verus! {

/// Errors that can occur during argument parsing.
#[derive(Debug, Clone, PartialEq, Eq)]
pub enum ParseError {
    /// An argument that takes a value came without one.
    MissingValue(String),
    /// Any other failure.
    Unknown,
}

impl ParseError {
    /// The human-readable description of the error.
    pub fn message(&self) -> (r: String)
        ensures
            r@ == match self {
                ParseError::MissingValue(arg) => "missing value for argument `"@ + arg@ + "`"@,
                ParseError::Unknown => "unknown parse error"@,
            },
    {
        match self {
            ParseError::MissingValue(arg) => {
                let mut s = concat("missing value for argument `", arg.as_str());
                s.append("`");
                s
            },
            ParseError::Unknown => String::from_str("unknown parse error"),
        }
    }
}

} // verus!

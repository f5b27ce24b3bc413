//! Errors of the expression language.
use crate::text::join2;
use vstd::prelude::*;

verus! {

/// Why a script was refused or stopped.
#[derive(Debug, PartialEq, Eq)]
pub enum FerroError {
    /// The script is not well formed.
    QueryParseError(String),
    /// The script failed while it ran.
    Internal(String),
}

pub type FerroResult<T> = Result<T, FerroError>;

impl FerroError {
    /// The message for people.
    pub fn message(&self) -> (r: String)
        ensures
            match self {
                FerroError::QueryParseError(m) => r@ == "script parse error: "@ + m@,
                FerroError::Internal(m) => r@ == "script runtime error: "@ + m@,
            },
    {
        match self {
            FerroError::QueryParseError(m) => join2("script parse error: ", m),
            FerroError::Internal(m) => join2("script runtime error: ", m),
        }
    }
}

} // verus!

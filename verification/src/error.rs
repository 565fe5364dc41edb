//! The error type that a strict expansion mode would raise.

use vstd::prelude::*;

verus! {

/// An error raised when a referenced environment variable has no value.
///
/// The default expansion substitutes the empty string for a missing
/// variable and never constructs this error; the type is kept for a
/// strict mode in which a missing variable aborts the expansion.
#[derive(Debug)]
pub enum EnvExpansionError {
    MissingVar(String),
}

impl EnvExpansionError {
    /// A human-readable description of the error.
    pub fn message(&self) -> (m: String)
        ensures
            m@ == "Missing environment variable: "@ + self->MissingVar_0@,
    {
        match self {
            EnvExpansionError::MissingVar(name) => {
                let mut m = String::from_str("Missing environment variable: ");
                m.append(name.as_str());
                m
            },
        }
    }
}

} // verus!

//! Errors of the splitters.

use vstd::prelude::*;

verus! {

#[derive(Debug, Clone, PartialEq, Eq)]
pub enum SplitError {
    /// The separators did not compile into a pattern.
    InvalidSeparators,
    /// A diff could not be parsed; the line and byte offset where parsing stopped.
    DiffParse { line: u32, offset: usize },
    /// A skip rule is not a valid glob pattern.
    InvalidGlob { pattern: String },
}

impl SplitError {
    /// A human-readable description of the error.
    pub fn message(&self) -> (r: String)
        ensures
            *self is InvalidSeparators ==> r@ == "separators do not form a valid pattern"@,
            *self is DiffParse ==> r@ == "diff could not be parsed"@,
            *self is InvalidGlob ==> r@ == "skip rule is not a valid glob pattern"@,
    {
        match self {
            SplitError::InvalidSeparators => "separators do not form a valid pattern".to_owned(),
            SplitError::DiffParse { .. } => "diff could not be parsed".to_owned(),
            SplitError::InvalidGlob { .. } => "skip rule is not a valid glob pattern".to_owned(),
        }
    }
}

} // verus!

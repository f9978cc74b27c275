//! The one way a search can fail.

use vstd::prelude::*;

verus! {

/// A query that does not compile; it carries the regex engine's message.
#[derive(Debug, Clone, PartialEq, Eq)]
pub enum SearchError {
    InvalidPattern(String),
}

impl SearchError {
    /// The text shown to a user for this error.
    pub fn message(&self) -> (r: String)
        ensures
            match self {
                SearchError::InvalidPattern(m) => r@ == m@,
            },
    {
        match self {
            SearchError::InvalidPattern(m) => m.clone(),
        }
    }
}

} // verus!

//! The compiled line matcher, backed by ripgrep's regex matcher.

use vstd::prelude::*;
use grep::matcher::Matcher;
use grep::regex::RegexMatcher;
use crate::search::error::SearchError;

verus! {

#[verifier::external_type_specification]
#[verifier::external_body]
pub struct ExRegexMatcher(grep::regex::RegexMatcher);

#[verifier::external_type_specification]
#[verifier::external_body]
pub struct ExGrepRegexError(grep::regex::Error);

/// Whether ripgrep's regex matcher accepts `pattern`.
pub uninterp spec fn line_regex_accepts(pattern: Seq<char>) -> bool;

/// The span of the first match of `pattern` in `haystack` that starts at or
/// after `at`, as ripgrep's regex matcher reports it.
pub uninterp spec fn line_regex_find_at(
    pattern: Seq<char>,
    haystack: Seq<u8>,
    at: int,
) -> Option<(int, int)>;

/// Relies on RegexMatcher::new: it succeeds exactly on the patterns that it
/// accepts, which depends on the pattern text alone.
#[verifier::external_body]
fn build_regex_matcher(pattern: &str) -> (r: Result<RegexMatcher, grep::regex::Error>)
    ensures
        r is Ok <==> line_regex_accepts(pattern@),
{
    RegexMatcher::new(pattern)
}

/// Relies on the Display impl of grep_regex::Error for the error's message.
#[verifier::external_body]
fn grep_error_message(e: &grep::regex::Error) -> String {
    e.to_string()
}

/// A pattern compiled for matching within single lines. Its fields are
/// private and `compile` is the only way to make one, so `inner` is always
/// the matcher built from `source`.
pub struct LineMatcher {
    source: String,
    inner: RegexMatcher,
}

impl LineMatcher {
    /// The pattern text this matcher was compiled from.
    pub closed spec fn pattern(&self) -> Seq<char> {
        self.source@
    }

    /// Compiles `pattern`; fails with `InvalidPattern` exactly when the
    /// regex engine refuses it.
    pub fn compile(pattern: &str) -> (r: Result<LineMatcher, SearchError>)
        ensures
            r is Ok <==> line_regex_accepts(pattern@),
            r matches Ok(m) ==> m.pattern() == pattern@,
    {
        match build_regex_matcher(pattern) {
            Ok(inner) => Ok(LineMatcher { source: String::from_str(pattern), inner }),
            Err(e) => Err(SearchError::InvalidPattern(grep_error_message(&e))),
        }
    }

    /// Relies on Matcher::find_at of RegexMatcher, which `inner` was built by
    /// from `source`: the first match at or after `at`, which lies within
    /// `at..haystack.len()`. It panics when `at` exceeds the length.
    #[verifier::external_body]
    pub(crate) fn find_at(&self, haystack: &[u8], at: usize) -> (r: Option<(usize, usize)>)
        requires
            at <= haystack@.len(),
        ensures
            match r {
                Some(sp) => line_regex_find_at(self.pattern(), haystack@, at as int) == Some(
                    (sp.0 as int, sp.1 as int),
                ) && at <= sp.0 <= sp.1 <= haystack@.len(),
                None => line_regex_find_at(self.pattern(), haystack@, at as int) is None,
            },
    {
        match self.inner.find_at(haystack, at) {
            Ok(found) => found.map(|m| (m.start(), m.end())),
            Err(_) => None,
        }
    }
}

} // verus!

//! Turning a raw query into the pattern text handed to a regex engine.

use vstd::prelude::*;
use vstd::string::*;
use vstd::utf8::*;
use regex::Regex;
use crate::search::error::SearchError;

verus! {

/// The characters that carry a meaning in regex syntax and are escaped
/// when a query is taken literally.
pub open spec fn is_regex_meta(c: char) -> bool {
    c == '\\' || c == '.' || c == '+' || c == '*' || c == '?' || c == '(' || c == ')' || c == '|'
        || c == '[' || c == ']' || c == '{' || c == '}' || c == '^' || c == '$' || c == '#'
        || c == '&' || c == '-' || c == '~'
}

/// `s` with a backslash placed before every meta character.
pub open spec fn escaped(s: Seq<char>) -> Seq<char>
    decreases s.len(),
{
    if s.len() == 0 {
        Seq::empty()
    } else {
        let c = s.last();
        if is_regex_meta(c) {
            escaped(s.drop_last()) + seq!['\\', c]
        } else {
            escaped(s.drop_last()).push(c)
        }
    }
}

/// The inline flag that turns on case-insensitive matching.
pub open spec fn case_insensitive_flag() -> Seq<char> {
    seq!['(', '?', 'i', ')']
}

/// The pattern text that a query compiles to under the two modes: the query
/// itself in regex mode, its escaped form in literal mode, with the
/// case-insensitive flag put in front when matching ignores case.
pub open spec fn normalized_pattern(
    query: Seq<char>,
    case_sensitive: bool,
    regex_enabled: bool,
) -> Seq<char> {
    let body = if regex_enabled {
        query
    } else {
        escaped(query)
    };
    if case_sensitive {
        body
    } else {
        case_insensitive_flag() + body
    }
}

/// Relies on regex::escape: every regex meta character of `s` gets a
/// backslash before it, and every other character is kept as it is.
#[verifier::external_body]
fn escape_meta(s: &str) -> (r: String)
    ensures
        r@ == escaped(s@),
{
    regex::escape(s)
}

/// Builds the pattern text for `query` under the given modes.
pub fn normalize_pattern(query: &str, case_sensitive: bool, regex_enabled: bool) -> (r: String)
    ensures
        r@ == normalized_pattern(query@, case_sensitive, regex_enabled),
{
    let body = if regex_enabled {
        String::from_str(query)
    } else {
        escape_meta(query)
    };
    if case_sensitive {
        body
    } else {
        let flag = String::from_str("(?i)");
        proof {
            reveal_strlit("(?i)");
        }
        flag.concat(body.as_str())
    }
}

#[verifier::external_type_specification]
#[verifier::external_body]
pub struct ExRegex(regex::Regex);

#[verifier::external_type_specification]
#[verifier::external_body]
pub struct ExRegexError(regex::Error);

/// Whether `Regex::new` accepts `pattern`.
pub uninterp spec fn regex_accepts(pattern: Seq<char>) -> bool;

/// Whether the regex compiled from `pattern` matches somewhere in `text`.
pub uninterp spec fn regex_is_match(pattern: Seq<char>, text: Seq<char>) -> bool;

/// The successive non-overlapping matches, as byte spans, of the regex
/// compiled from `pattern` in `text`.
pub uninterp spec fn regex_find_all(pattern: Seq<char>, text: Seq<char>) -> Seq<(int, int)>;

/// Relies on Regex::new: it succeeds exactly on the patterns it accepts,
/// which depends on the pattern text alone.
#[verifier::external_body]
fn build_regex(pattern: &str) -> (r: Result<Regex, regex::Error>)
    ensures
        r is Ok <==> regex_accepts(pattern@),
{
    Regex::new(pattern)
}

/// Relies on the Display impl of regex::Error for the error's message.
#[verifier::external_body]
fn regex_error_message(e: &regex::Error) -> String {
    e.to_string()
}

/// Spans with their start at most their end and their end within `len`
/// bytes, each ending no later than the next one starts.
pub open spec fn spans_in_order(spans: Seq<(usize, usize)>, len: nat) -> bool {
    &&& forall|i: int| 0 <= i < spans.len() ==> (#[trigger] spans[i]).0 <= spans[i].1 <= len
    &&& forall|i: int, j: int|
        0 <= i < j < spans.len() ==> (#[trigger] spans[i]).1 <= (#[trigger] spans[j]).0
}

/// A regex together with the pattern text it was compiled from. Its fields
/// are private and `PatternMatcher::compile_pattern` is the only way to
/// make one, so `regex` is always the regex built from `source`.
pub struct CompiledPattern {
    source: String,
    regex: Regex,
}

impl CompiledPattern {
    /// The pattern text this regex was compiled from.
    pub closed spec fn pattern(&self) -> Seq<char> {
        self.source@
    }

    /// The pattern text this regex was compiled from.
    pub fn as_str(&self) -> (r: &str)
        ensures
            r@ == self.pattern(),
    {
        self.source.as_str()
    }

    /// Relies on Regex::is_match of `regex`, which was built from `source`:
    /// true exactly when the regex matches somewhere in `text`.
    #[verifier::external_body]
    fn matches_in(&self, text: &str) -> (r: bool)
        ensures
            r == regex_is_match(self.pattern(), text@),
            r == (regex_find_all(self.pattern(), text@).len() > 0),
    {
        self.regex.is_match(text)
    }

    /// Relies on Regex::find_iter of `regex`, which was built from `source`:
    /// the byte spans of its successive matches, which lie within the text
    /// and come left to right without overlap.
    #[verifier::external_body]
    fn spans_in(&self, text: &str) -> (r: Vec<(usize, usize)>)
        ensures
            r@.map_values(|sp: (usize, usize)| (sp.0 as int, sp.1 as int)) == regex_find_all(
                self.pattern(),
                text@,
            ),
            spans_in_order(r@, encode_utf8(text@).len()),
    {
        self.regex.find_iter(text).map(|m| (m.start(), m.end())).collect()
    }
}

/// Compiles queries under fixed case-sensitivity and regex modes.
pub struct PatternMatcher {
    case_sensitive: bool,
    regex_enabled: bool,
}

impl PatternMatcher {
    pub closed spec fn is_case_sensitive(&self) -> bool {
        self.case_sensitive
    }

    pub closed spec fn is_regex_enabled(&self) -> bool {
        self.regex_enabled
    }

    /// The pattern text `query` compiles to under this matcher's modes.
    pub open spec fn pattern_for(&self, query: Seq<char>) -> Seq<char> {
        normalized_pattern(query, self.is_case_sensitive(), self.is_regex_enabled())
    }

    pub fn new(case_sensitive: bool, regex_enabled: bool) -> (r: PatternMatcher)
        ensures
            r.is_case_sensitive() == case_sensitive,
            r.is_regex_enabled() == regex_enabled,
    {
        PatternMatcher { case_sensitive, regex_enabled }
    }

    /// Compiles `pattern`; fails with `InvalidPattern` exactly when the
    /// regex engine refuses the pattern text it stands for.
    pub fn compile_pattern(&self, pattern: &str) -> (r: Result<CompiledPattern, SearchError>)
        ensures
            r is Ok <==> regex_accepts(self.pattern_for(pattern@)),
            r matches Ok(c) ==> c.pattern() == self.pattern_for(pattern@),
    {
        let text = normalize_pattern(pattern, self.case_sensitive, self.regex_enabled);
        match build_regex(text.as_str()) {
            Ok(regex) => Ok(CompiledPattern { source: text, regex }),
            Err(e) => Err(SearchError::InvalidPattern(regex_error_message(&e))),
        }
    }

    /// Whether `pattern` matches somewhere in `text`.
    pub fn is_match(&self, pattern: &str, text: &str) -> (r: Result<bool, SearchError>)
        ensures
            r is Ok <==> regex_accepts(self.pattern_for(pattern@)),
            r matches Ok(b) ==> b == regex_is_match(self.pattern_for(pattern@), text@),
            r matches Ok(b) ==> b == (regex_find_all(self.pattern_for(pattern@), text@).len() > 0),
    {
        let compiled = self.compile_pattern(pattern)?;
        Ok(compiled.matches_in(text))
    }

    /// The byte spans of the successive matches of `pattern` in `text`.
    pub fn find_matches(&self, pattern: &str, text: &str) -> (r: Result<
        Vec<(usize, usize)>,
        SearchError,
    >)
        ensures
            r is Ok <==> regex_accepts(self.pattern_for(pattern@)),
            r matches Ok(v) ==> v@.map_values(|sp: (usize, usize)| (sp.0 as int, sp.1 as int))
                == regex_find_all(self.pattern_for(pattern@), text@),
            r matches Ok(v) ==> spans_in_order(v@, encode_utf8(text@).len()),
    {
        let compiled = self.compile_pattern(pattern)?;
        Ok(compiled.spans_in(text))
    }
}

} // verus!

//! Regular expressions, compiled by the `regex` crate and known here by their
//! pattern text.

use vstd::prelude::*;
use crate::text::owned;

verus! {

#[verifier::external_type_specification]
#[verifier::external_body]
pub struct ExCompiledRegex(regex::Regex);

#[verifier::external_type_specification]
#[verifier::external_body]
pub struct ExRegexError(regex::Error);

/// Whether `regex::Regex::new` accepts a pattern.
pub uninterp spec fn regex_compiles(pattern: Seq<char>) -> bool;

/// What `regex::Regex::is_match` answers for a pattern and a haystack.
pub uninterp spec fn regex_is_match(pattern: Seq<char>, haystack: Seq<char>) -> bool;

/// What `regex::Regex::replace_all` gives for a pattern, a haystack and a
/// replacement (with `$name` group references expanded).
pub uninterp spec fn regex_replace_all(pattern: Seq<char>, haystack: Seq<char>, replacement: Seq<char>) -> Seq<char>;

/// Calls `regex::Regex::new`; it succeeds exactly on the patterns named by
/// `regex_compiles`.
#[verifier::external_body]
fn compile(pattern: &str) -> (r: Result<regex::Regex, regex::Error>)
    ensures
        r is Ok <==> regex_compiles(pattern@),
{
    regex::Regex::new(pattern)
}

/// The message of a `regex::Error` (its `Display` text); nothing is stated of it.
#[verifier::external_body]
fn error_text(e: &regex::Error) -> String {
    e.to_string()
}

/// Calls `Clone::clone` on a compiled regex: a regex for the same pattern.
/// Nothing is stated of the result, which is opaque here.
#[verifier::external_body]
fn clone_compiled(re: &regex::Regex) -> regex::Regex {
    re.clone()
}

/// Why a pattern was refused.
#[derive(Debug)]
pub struct RegexError {
    pub pattern: String,
    pub message: String,
}

/// A compiled regular expression together with its pattern. The fields are
/// private: a value is only made by compiling its `source` (`new`) or by
/// cloning one so made, so `compiled` is always the compiled form of `source`.
#[derive(Debug)]
pub struct RegexPattern {
    compiled: regex::Regex,
    source: String,
}

/// Calls `regex::Regex::is_match` on the compiled form of `re`; its result is
/// named by `regex_is_match` over the pattern that `re` was compiled from
/// (every `RegexPattern` is built by `RegexPattern::new` from its `source`).
#[verifier::external_body]
fn call_is_match(re: &RegexPattern, haystack: &str) -> (r: bool)
    ensures
        r == regex_is_match(re.pattern(), haystack@),
{
    re.compiled.is_match(haystack)
}

/// Calls `regex::Regex::replace_all` on the compiled form of `re`. The text is
/// named by `regex_replace_all`; the flag tells whether the crate gave back a
/// new string (`Cow::Owned`), which its source does exactly when the pattern
/// matches, and otherwise the haystack is given back as it is.
#[verifier::external_body]
fn call_replace_all(re: &RegexPattern, haystack: &str, replacement: &String) -> (r: (String, bool))
    ensures
        r.0@ == regex_replace_all(re.pattern(), haystack@, replacement@),
        r.1 == regex_is_match(re.pattern(), haystack@),
        !r.1 ==> r.0@ == haystack@,
{
    match re.compiled.replace_all(haystack, replacement) {
        std::borrow::Cow::Borrowed(b) => (b.to_string(), false),
        std::borrow::Cow::Owned(o) => (o, true),
    }
}

impl RegexPattern {
    /// The pattern the regex was compiled from.
    pub closed spec fn pattern(&self) -> Seq<char> {
        self.source@
    }

    /// Compiles a pattern.
    pub fn new(pattern: &str) -> (r: Result<RegexPattern, RegexError>)
        ensures
            r is Ok <==> regex_compiles(pattern@),
            r matches Ok(re) ==> re.pattern() == pattern@,
            r matches Err(e) ==> e.pattern@ == pattern@,
    {
        match compile(pattern) {
            Ok(compiled) => Ok(RegexPattern { compiled, source: owned(pattern) }),
            Err(e) => Err(RegexError { pattern: owned(pattern), message: error_text(&e) }),
        }
    }

    /// The pattern text.
    pub fn as_str(&self) -> (r: &str)
        ensures
            r@ == self.pattern(),
    {
        self.source.as_str()
    }

    /// Whether the regex matches somewhere in `haystack`.
    pub fn is_match(&self, haystack: &str) -> (r: bool)
        ensures
            r == regex_is_match(self.pattern(), haystack@),
    {
        call_is_match(self, haystack)
    }

    /// Every match replaced by `replacement`, and whether there was a match.
    pub fn replace_all(&self, haystack: &str, replacement: &String) -> (r: (String, bool))
        ensures
            r.0@ == regex_replace_all(self.pattern(), haystack@, replacement@),
            r.1 == regex_is_match(self.pattern(), haystack@),
            !r.1 ==> r.0@ == haystack@,
    {
        call_replace_all(self, haystack, replacement)
    }

    /// Two regexes are equal when their patterns are.
    pub fn eq(&self, other: &RegexPattern) -> (r: bool)
        ensures
            r == (self.pattern() == other.pattern()),
    {
        crate::text::str_eq(self.source.as_str(), other.source.as_str())
    }
}

impl Clone for RegexPattern {
    fn clone(&self) -> (r: Self)
        ensures
            r.pattern() == self.pattern(),
    {
        RegexPattern { compiled: clone_compiled(&self.compiled), source: self.source.clone() }
    }
}

} // verus!

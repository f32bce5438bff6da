//! Compiled search patterns, as the `regex` crate provides them.
//!
//! Everything this crate knows about regular expressions is stated here:
//! the declarations below are believed, not proved.

use vstd::prelude::*;

verus! {

/// `regex::Regex`, a compiled pattern. Nothing of its inside is visible
/// here.
#[verifier::external_type_specification]
#[verifier::external_body]
pub struct ExRegex(regex::Regex);

/// `regex::Error`, what `regex::Regex::new` returns for a pattern that it
/// refuses.
#[verifier::external_type_specification]
#[verifier::external_body]
pub struct ExRegexError(regex::Error);

/// Whether `regex::Regex::new` accepts `pattern`.
pub uninterp spec fn pattern_compiles(pattern: Seq<char>) -> bool;

/// The pattern text that `regex::Regex::new` was given when it returned `re`.
pub uninterp spec fn regex_source(re: regex::Regex) -> Seq<char>;

/// Whether a regex compiled from `pattern` finds a match anywhere in
/// `haystack`: the answer of `regex::Regex::is_match`.
pub uninterp spec fn pattern_matches(pattern: Seq<char>, haystack: Seq<char>) -> bool;

/// The text that `regex::Regex::replacen` returns for a regex compiled from
/// `pattern`: `haystack` with its first `limit` non-overlapping matches (all
/// of them when `limit` is 0) replaced by the expansion of `replacement`.
pub uninterp spec fn pattern_replaced(
    pattern: Seq<char>,
    haystack: Seq<char>,
    limit: nat,
    replacement: Seq<char>,
) -> Seq<char>;

/// `regex::Regex::new`: compiles `pattern` with the crate's default options.
/// Whether it succeeds depends on the pattern text alone, and the regex it
/// returns remembers that text.
#[verifier::external_body]
pub(crate) fn compile(pattern: &str) -> (r: Result<regex::Regex, regex::Error>)
    ensures
        r is Ok <==> pattern_compiles(pattern@),
        r is Ok ==> regex_source(r->Ok_0) == pattern@,
{
    regex::Regex::new(pattern)
}

/// `regex::Regex::is_match`: true if and only if the regex matches somewhere
/// in `haystack`. For a regex made by [`compile`] the answer depends on the
/// pattern text and the haystack alone.
#[verifier::external_body]
pub(crate) fn is_match(re: &regex::Regex, haystack: &str) -> (found: bool)
    ensures
        found == pattern_matches(regex_source(*re), haystack@),
{
    re.is_match(haystack)
}

/// `regex::Regex::replacen` with a string replacement, which may refer to
/// capture groups as `$1` or `${name}`. For a regex made by [`compile`] the
/// text returned depends on the pattern text, the haystack, the limit and
/// the replacement alone.
#[verifier::external_body]
pub(crate) fn replacen(re: &regex::Regex, haystack: &str, limit: usize, replacement: &str) -> (out:
    String)
    ensures
        out@ == pattern_replaced(regex_source(*re), haystack@, limit as nat, replacement@),
{
    re.replacen(haystack, limit, replacement).into_owned()
}

} // verus!

//! The two pattern engines behind the criteria: the linear-time engine and
//! the backtracking engine. Each compiled matcher is opaque here; what it
//! was compiled from and what it accepts are named, and the calls into the
//! engines carry the trusted contracts over those names.

use vstd::prelude::*;

verus! {

#[verifier::external_type_specification]
#[verifier::external_body]
pub struct ExRegex(regex::Regex);

#[verifier::external_type_specification]
#[verifier::external_body]
pub struct ExFancyRegex(fancy_regex::Regex);

/// The pattern a compiled linear-engine matcher holds, the string
/// `regex::Regex::as_str` hands back.
pub uninterp spec fn regex_pattern(re: regex::Regex) -> Seq<char>;

/// Whether the linear engine accepts `pattern` as a pattern.
pub uninterp spec fn regex_compiles(pattern: Seq<char>) -> bool;

/// Whether the linear engine finds a match for `pattern` anywhere in `text`.
pub uninterp spec fn regex_match(pattern: Seq<char>, text: Seq<char>) -> bool;

/// The pattern a compiled backtracking-engine matcher holds, the string
/// `fancy_regex::Regex::as_str` hands back.
pub uninterp spec fn fancy_pattern(re: fancy_regex::Regex) -> Seq<char>;

/// Whether the backtracking engine accepts `pattern` as a pattern.
pub uninterp spec fn fancy_compiles(pattern: Seq<char>) -> bool;

/// Whether the backtracking engine finds a match for `pattern` anywhere in
/// `text` — with a run-time engine failure counting as no match.
pub uninterp spec fn fancy_match(pattern: Seq<char>, text: Seq<char>) -> bool;

/// Relies on regex::Regex::new: compilation succeeds or fails on the
/// pattern alone, and the compiled value embodies exactly that pattern.
#[verifier::external_body]
pub(crate) fn regex_new(pattern: &str) -> (r: Option<regex::Regex>)
    ensures
        r is Some <==> regex_compiles(pattern@),
        r matches Some(re) ==> regex_pattern(re) == pattern@,
{
    regex::Regex::new(pattern).ok()
}

/// Relies on regex::Regex::is_match: the outcome depends only on the
/// compiled pattern and the text searched.
#[verifier::external_body]
pub(crate) fn regex_is_match(re: &regex::Regex, text: &str) -> (r: bool)
    ensures
        r == regex_match(regex_pattern(*re), text@),
{
    re.is_match(text)
}

/// Relies on fancy_regex::Regex::new: compilation succeeds or fails on the
/// pattern alone, and the compiled value embodies exactly that pattern.
#[verifier::external_body]
pub(crate) fn fancy_new(pattern: &str) -> (r: Option<fancy_regex::Regex>)
    ensures
        r is Some <==> fancy_compiles(pattern@),
        r matches Some(re) ==> fancy_pattern(re) == pattern@,
{
    fancy_regex::Regex::new(pattern).ok()
}

/// Relies on fancy_regex::Regex::is_match: with the default backtracking
/// limit the outcome depends only on the compiled pattern and the text;
/// an engine failure is treated as no match.
#[verifier::external_body]
pub(crate) fn fancy_is_match(re: &fancy_regex::Regex, text: &str) -> (r: bool)
    ensures
        r == fancy_match(fancy_pattern(*re), text@),
{
    re.is_match(text).unwrap_or(false)
}

} // verus!

//! The regular-expression engine, as seen by the verified code.
use vstd::prelude::*;

use regex::Regex;
use regex::RegexBuilder;

verus! {

#[verifier::external_type_specification]
#[verifier::external_body]
pub struct ExRegex(regex::Regex);

#[verifier::external_type_specification]
#[verifier::external_body]
pub struct ExRegexError(regex::Error);

/// Whether `pattern` compiles as a regular expression under the engine's
/// default options.
pub uninterp spec fn pattern_compiles(pattern: Seq<char>) -> bool;

/// A pattern which, compiled with the default options, matches as `re` does.
/// For a regex built with the default options this is the text it was built
/// from.
pub uninterp spec fn regex_pattern(re: Regex) -> Seq<char>;

/// Whether the regex compiled from `pattern` matches somewhere in `text`.
pub uninterp spec fn has_match(pattern: Seq<char>, text: Seq<char>) -> bool;

/// `text` with its leftmost-first match of `pattern` replaced by the expansion
/// of `rep` (capture references such as `$1` expanded).
pub uninterp spec fn first_replaced(pattern: Seq<char>, text: Seq<char>, rep: Seq<char>) -> Seq<
    char,
>;

/// `text` with every non-overlapping match of `pattern`, left to right,
/// replaced by the expansion of `rep`.
pub uninterp spec fn all_replaced(pattern: Seq<char>, text: Seq<char>, rep: Seq<char>) -> Seq<
    char,
>;

/// Relies on `regex::RegexBuilder::new(pattern).build()`: with the default
/// options, success depends on the pattern alone, and the regex it returns
/// keeps the pattern it was built from.
#[verifier::external_body]
pub(crate) fn compile(pattern: &str) -> (r: Result<Regex, regex::Error>)
    ensures
        r is Ok <==> pattern_compiles(pattern@),
        r matches Ok(re) ==> regex_pattern(re) == pattern@,
{
    RegexBuilder::new(pattern).build()
}

/// Relies on `regex::Regex::is_match`: whether the regex matches anywhere in
/// the haystack.
#[verifier::external_body]
pub(crate) fn is_match(re: &Regex, text: &str) -> (r: bool)
    ensures
        r == has_match(regex_pattern(*re), text@),
{
    re.is_match(text)
}

/// Relies on `regex::Regex::replace`: the leftmost-first match is replaced,
/// and where there is no match the haystack comes back unchanged.
#[verifier::external_body]
pub(crate) fn replace_first(re: &Regex, text: &str, rep: &str) -> (r: String)
    ensures
        r@ == first_replaced(regex_pattern(*re), text@, rep@),
        !has_match(regex_pattern(*re), text@) ==> r@ == text@,
{
    re.replace(text, rep).into_owned()
}

/// Relies on `regex::Regex::replace_all`: every non-overlapping match is
/// replaced, and where there is no match the haystack comes back unchanged.
#[verifier::external_body]
pub(crate) fn replace_every(re: &Regex, text: &str, rep: &str) -> (r: String)
    ensures
        r@ == all_replaced(regex_pattern(*re), text@, rep@),
        !has_match(regex_pattern(*re), text@) ==> r@ == text@,
{
    re.replace_all(text, rep).into_owned()
}

} // verus!

//! The regular-expression collaborator used by the filter engine.

use vstd::prelude::*;

verus! {

#[verifier::external_type_specification]
#[verifier::external_body]
pub struct ExRegex(regex::Regex);

#[verifier::external_type_specification]
#[verifier::external_body]
pub struct ExRegexError(regex::Error);

/// Whether the regex crate accepts the pattern text.
pub uninterp spec fn regex_valid(pat: Seq<char>) -> bool;

/// The pattern text a compiled regex was built from.
pub uninterp spec fn regex_pattern(re: regex::Regex) -> Seq<char>;

/// Whether the pattern matches somewhere in the text.  Matching is a pure
/// function of the pattern and the text.
pub uninterp spec fn regex_matches(pat: Seq<char>, text: Seq<char>) -> bool;

/// Relies on `regex::Regex::new`: compiles exactly the given pattern and
/// fails exactly on the patterns the crate rejects (bad syntax, or a
/// compiled program over the default size limit), both a function of the
/// pattern text alone.
#[verifier::external_body]
pub fn regex_new(pat: &str) -> (r: Result<regex::Regex, regex::Error>)
    ensures
        r is Ok <==> regex_valid(pat@),
        r matches Ok(re) ==> regex_pattern(re) == pat@,
{
    regex::Regex::new(pat)
}

/// Relies on `regex::Regex::is_match`: whether a compiled regex matches a
/// haystack depends only on its pattern and the haystack.
#[verifier::external_body]
pub fn regex_is_match(re: &regex::Regex, text: &str) -> (r: bool)
    ensures
        r == regex_matches(regex_pattern(*re), text@),
{
    re.is_match(text)
}

} // verus!

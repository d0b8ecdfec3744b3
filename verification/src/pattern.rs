//! Regular expressions on names.

use vstd::prelude::*;

verus! {

/// Whether `regex::Regex::new` accepts `pattern`.
pub uninterp spec fn regex_compiles(pattern: Seq<char>) -> bool;

/// Whether the regular expression `pattern`, once compiled, finds a match
/// in `text` (`regex::Regex::is_match`).
pub uninterp spec fn regex_matches(pattern: Seq<char>, text: Seq<char>) -> bool;

/// Compiles `pattern` with `regex::Regex::new` and searches `text` for a
/// match with `Regex::is_match`.
///
/// Trusted: whether a pattern compiles depends on the pattern alone, and
/// whether a compiled pattern matches depends on the pattern and the text
/// alone. `None` stands for the compile error.
#[verifier::external_body]
pub(crate) fn is_match(pattern: &str, text: &str) -> (r: Option<bool>)
    ensures
        r is Some <==> regex_compiles(pattern@),
        r matches Some(found) ==> found == regex_matches(pattern@, text@),
{
    match regex::Regex::new(pattern) {
        Ok(compiled) => Some(compiled.is_match(text)),
        Err(_) => None,
    }
}

/// Whether `pattern` is a regular expression that compiles.
pub fn compiles(pattern: &str) -> (r: bool)
    ensures
        r == regex_compiles(pattern@),
{
    is_match(pattern, "").is_some()
}

/// Whether `pattern` compiles and matches `text`.
pub fn matches_name(pattern: &str, text: &str) -> (r: bool)
    ensures
        r == (regex_compiles(pattern@) && regex_matches(pattern@, text@)),
{
    match is_match(pattern, text) {
        Some(found) => found,
        None => false,
    }
}

} // verus!

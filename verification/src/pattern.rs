//! Regular expressions, through the `regex` crate.
use vstd::prelude::*;

verus! {

/// Names whether `regex::Regex::new` accepts a pattern (a function of the
/// pattern alone: its syntax and the default size limit).
pub uninterp spec fn regex_valid(pattern: Seq<char>) -> bool;

/// Names what `regex::Regex::is_match` answers for a haystack, with the
/// regex compiled from the pattern.
pub uninterp spec fn regex_is_match(pattern: Seq<char>, haystack: Seq<char>) -> bool;

/// Names the text of the first match that `regex::Regex::find` gives in a
/// haystack, with the regex compiled from the pattern.
pub uninterp spec fn regex_first_match(pattern: Seq<char>, haystack: Seq<char>) -> Option<
    Seq<char>,
>;

/// Calls `regex::Regex::new` and reports whether it accepted the pattern.
#[verifier::external_body]
pub(crate) fn regex_compiles(pattern: &str) -> (r: bool)
    ensures
        r == regex_valid(pattern@),
{
    regex::Regex::new(pattern).is_ok()
}

/// Compiles `pattern` with `regex::Regex::new` and calls `is_match` on the
/// haystack: `None` when the pattern is refused, else the named answer.
#[verifier::external_body]
pub(crate) fn regex_matches(pattern: &str, haystack: &str) -> (r: Option<bool>)
    ensures
        r is None <==> !regex_valid(pattern@),
        r matches Some(b) ==> b == regex_is_match(pattern@, haystack@),
{
    match regex::Regex::new(pattern) {
        Ok(re) => Some(re.is_match(haystack)),
        Err(_) => None,
    }
}

/// Compiles `pattern` with `regex::Regex::new` and calls `find` on the
/// haystack: `None` when the pattern is refused, else the text of the first
/// match, if there is one (`Match::as_str`), as named.
#[verifier::external_body]
pub(crate) fn regex_find(pattern: &str, haystack: &str) -> (r: Option<Option<String>>)
    ensures
        r is None <==> !regex_valid(pattern@),
        r matches Some(m) ==> match m {
            Some(t) => regex_first_match(pattern@, haystack@) == Some(t@),
            None => regex_first_match(pattern@, haystack@) is None,
        },
{
    match regex::Regex::new(pattern) {
        Ok(re) => match re.find(haystack) {
            Some(m) => Some(Some(m.as_str().to_string())),
            None => Some(None),
        },
        Err(_) => None,
    }
}

} // verus!

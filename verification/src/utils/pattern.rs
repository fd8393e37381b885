//! Regular-expression matching, done by the `regex` crate.

use vstd::prelude::*;

verus! {

/// What `regex` answers when `pattern` is compiled with `regex::Regex::new` and
/// the compiled expression is asked, with `Regex::is_match`, whether it matches
/// anywhere in `haystack`: `None` when the pattern does not compile, otherwise
/// `Some` of the answer.
pub uninterp spec fn regex_search(pattern: Seq<char>, haystack: Seq<char>) -> Option<bool>;

/// Compiles `pattern` with `regex::Regex::new` and searches `haystack` with
/// `Regex::is_match`.
///
/// Trusted: the result is taken to be a function of the two texts alone, named
/// [`regex_search`]. Nothing is assumed about which texts match.
#[verifier::external_body]
pub(crate) fn search(pattern: &str, haystack: &str) -> (found: Option<bool>)
    ensures
        found == regex_search(pattern@, haystack@),
{
    match regex::Regex::new(pattern) {
        Ok(expression) => Some(expression.is_match(haystack)),
        Err(_) => None,
    }
}

} // verus!

//! Pattern matching, done by the `regex` crate.

use vstd::prelude::*;

verus! {

/// The answer of the `regex` crate for a pattern and a text: `None` where
/// `Regex::new` rejects the pattern, else `Some(b)` with `b` what `is_match`
/// of the compiled pattern returns for the text.
pub uninterp spec fn regex_search(pattern: Seq<char>, text: Seq<char>) -> Option<bool>;

/// Compiles `pattern` with `regex::Regex::new` and, where that succeeds,
/// calls `is_match` on `text`. Both depend on their arguments alone: the
/// contract gives the outcome the name `regex_search`.
#[verifier::external_body]
pub(crate) fn regex_is_match(pattern: &str, text: &str) -> (found: Option<bool>)
    ensures
        found == regex_search(pattern@, text@),
{
    match regex::Regex::new(pattern) {
        Ok(re) => Some(re.is_match(text)),
        Err(_) => None,
    }
}

} // verus!

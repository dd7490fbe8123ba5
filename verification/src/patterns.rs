//! Regular-expression search, as the `regex` crate performs it.

use vstd::prelude::*;

verus! {

/// Whether `regex::Regex::new` accepts `pattern`: it does where the syntax is
/// valid and the compiled program stays within the size limit that
/// `Regex::new` itself fixes.
pub uninterp spec fn pattern_accepted(pattern: Seq<char>) -> bool;

/// The texts of the successive non-overlapping matches of `pattern` in
/// `text`, from left to right, as `regex::Regex::find_iter` yields them.
pub uninterp spec fn pattern_matches(pattern: Seq<char>, text: Seq<char>) -> Seq<Seq<char>>;

/// Compiles `pattern` with `regex::Regex::new` and collects the text of each
/// match that `Regex::find_iter` yields in `text`. The contract claims that
/// there is a result exactly where `pattern_accepted` holds of the pattern,
/// whatever the text, and that the result is what `pattern_matches` stands
/// for.
#[verifier::external_body]
pub(crate) fn find_all(pattern: &str, text: &str) -> (r: Option<Vec<String>>)
    ensures
        r is Some <==> pattern_accepted(pattern@),
        r matches Some(found) ==> found.deep_view() == pattern_matches(pattern@, text@),
{
    match regex::Regex::new(pattern) {
        Ok(compiled) => Some(compiled.find_iter(text).map(|m| m.as_str().to_string()).collect()),
        Err(_) => None,
    }
}

} // verus!

//! Pattern matching on text, done by the `regex` crate.
//!
//! Nothing in this file is proved: each function below states what the crate
//! is relied on for.

use vstd::prelude::*;

verus! {

/// The pieces of `text` that lie between the successive matches of `pattern`,
/// from the start of the text to its end, as `regex::Regex::split` yields
/// them; `None` where `regex::Regex::new` refuses the pattern.
pub uninterp spec fn regex_split(pattern: Seq<char>, text: Seq<char>) -> Option<Seq<Seq<char>>>;

/// For each successive match of `pattern` in `text`, as
/// `regex::Regex::captures_iter` yields them, what the first capture group
/// matched, if it took part; `None` where `regex::Regex::new` refuses the
/// pattern.
pub uninterp spec fn regex_first_groups(pattern: Seq<char>, text: Seq<char>) -> Option<
    Seq<Option<Seq<char>>>,
>;

/// Compiles `pattern` with `regex::Regex::new` and cuts `text` with
/// `regex::Regex::split`. The contract only gives the outcome its name: it is
/// taken to depend on the pattern and the text alone.
#[verifier::external_body]
pub(crate) fn split_text(pattern: &str, text: &str) -> (r: Option<Vec<String>>)
    ensures
        r.deep_view() == regex_split(pattern@, text@),
{
    match regex::Regex::new(pattern) {
        Ok(re) => Some(re.split(text).map(|piece| piece.to_owned()).collect()),
        Err(_) => None,
    }
}

/// Compiles `pattern` with `regex::Regex::new` and walks the matches in
/// `text` with `regex::Regex::captures_iter`, keeping of each what its first
/// group matched. The contract only gives the outcome its name: it is taken
/// to depend on the pattern and the text alone.
#[verifier::external_body]
pub(crate) fn first_groups(pattern: &str, text: &str) -> (r: Option<Vec<Option<String>>>)
    ensures
        r.deep_view() == regex_first_groups(pattern@, text@),
{
    match regex::Regex::new(pattern) {
        Ok(re) => Some(
            re.captures_iter(text).map(|found| found.get(1).map(|m| m.as_str().to_owned())).collect(),
        ),
        Err(_) => None,
    }
}

} // verus!

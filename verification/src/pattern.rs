//! Regular-expression captures, computed by the `regex` crate.
use vstd::prelude::*;
use crate::model::opt_view;

verus! {

/// The text of capture group 1 in the leftmost match of `pattern` in `text`
/// (nothing when the pattern does not compile, does not match, or the group
/// did not take part in the match), as the `regex` crate determines it.
pub uninterp spec fn regex_capture(pattern: Seq<char>, text: Seq<char>) -> Option<Seq<char>>;

/// `Regex::new(pattern)` then `captures(text)` and group 1 of the result.
#[verifier::external_body]
pub(crate) fn first_capture(pattern: &str, text: &str) -> (r: Option<String>)
    ensures
        opt_view(r) == regex_capture(pattern@, text@),
{
    let re = match regex::Regex::new(pattern) {
        Ok(re) => re,
        Err(_) => return None,
    };
    match re.captures(text) {
        Some(caps) => caps.get(1).map(|m| m.as_str().to_string()),
        None => None,
    }
}

} // verus!

//! Regular expression search, as far as this library uses it.

use crate::text::opt_text;
use vstd::prelude::*;

verus! {

/// The text of the leftmost match of the regular expression `pattern` in
/// `text`; `None` where there is no match or `pattern` is no regular
/// expression.
pub uninterp spec fn regex_match(pattern: Seq<char>, text: Seq<char>) -> Option<Seq<char>>;

/// The text that capture group `group` took part with in the leftmost match
/// of the regular expression `pattern` in `text`; `None` where there is no
/// match, the group took no part in it, or `pattern` is no regular
/// expression.
pub uninterp spec fn regex_group(pattern: Seq<char>, text: Seq<char>, group: nat) -> Option<
    Seq<char>,
>;

/// Compiles `pattern` with `regex::Regex::new` and searches `text` with
/// `Regex::find`; the matched text is what `Match::as_str` gives. The result
/// depends on the two arguments alone, which is all the contract claims.
#[verifier::external_body]
pub(crate) fn first_match(pattern: &str, text: &str) -> (r: Option<String>)
    ensures
        opt_text(r) == regex_match(pattern@, text@),
{
    match regex::Regex::new(pattern) {
        Ok(re) => re.find(text).map(|m| m.as_str().to_owned()),
        Err(_) => None,
    }
}

/// Compiles `pattern` with `regex::Regex::new`, searches `text` with
/// `Regex::captures` and takes the group with `Captures::get`; the text is
/// what `Match::as_str` gives. The result depends on the three arguments
/// alone, which is all the contract claims.
#[verifier::external_body]
pub(crate) fn first_capture(pattern: &str, text: &str, group: usize) -> (r: Option<String>)
    ensures
        opt_text(r) == regex_group(pattern@, text@, group as nat),
{
    match regex::Regex::new(pattern) {
        Ok(re) => re.captures(text).and_then(|c| c.get(group)).map(|m| m.as_str().to_owned()),
        Err(_) => None,
    }
}

} // verus!

//! Matching a text against a regular expression.

use vstd::prelude::*;

verus! {

/// What matching `haystack` against the regular expression `pattern` yields:
/// `None` where `pattern` is no valid expression or finds no match in
/// `haystack`, and otherwise the text of each capture group of the leftmost
/// match, in the order of the groups' opening brackets and with the whole
/// match in front, `None` standing for a group that took no part in it.
pub uninterp spec fn regex_captures(pattern: Seq<char>, haystack: Seq<char>) -> Option<
    Seq<Option<Seq<char>>>,
>;

/// Compiles `pattern` with `regex::Regex::new` and searches `haystack` with
/// `regex::Regex::captures`, on every call anew. Both are functions of their
/// arguments alone, so the outcome has a name; nothing more is claimed of it.
#[verifier::external_body]
pub(crate) fn captures(pattern: &str, haystack: &str) -> (groups: Option<Vec<Option<String>>>)
    ensures
        groups.deep_view() == regex_captures(pattern@, haystack@),
{
    let re = regex::Regex::new(pattern).ok()?;
    let found = re.captures(haystack)?;
    Some(found.iter().map(|group| group.map(|m| m.as_str().to_string())).collect())
}

} // verus!

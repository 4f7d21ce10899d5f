//! The card catalog as the parser sees it: something that is asked for the
//! card of a normalized name and answers with the card or with a reason.

use vstd::prelude::*;
use crate::error::ProxygenError;
use crate::error::ErrorView;

verus! {

/// Why the catalog gave no card for a name.
#[derive(Debug, Clone, PartialEq, Eq)]
pub enum ResolveError {
    /// No card has the name.
    NotFound,
    /// The name is that of a card of several faces, with more face names
    /// than the catalog can tell apart.
    MalformedMultiface,
    /// Anything else, with what the catalog said.
    Other(String),
}

/// The failure of a decklist in which the catalog answered `error` for
/// `name`.
pub open spec fn failure_of(name: Seq<char>, error: ResolveError) -> ErrorView {
    match error {
        ResolveError::NotFound => ErrorView::InvalidCardName(name),
        ResolveError::MalformedMultiface => ErrorView::MulticardHasMalformedNames(name),
        ResolveError::Other(detail) => ErrorView::Other(detail@),
    }
}

/// Turns the catalog's reason for giving no card for `name` into the failure
/// of the decklist, with the name in it.
pub fn resolution_error(name: String, error: ResolveError) -> (failure: ProxygenError)
    ensures
        failure@ == failure_of(name@, error),
{
    match error {
        ResolveError::NotFound => ProxygenError::InvalidCardName(name),
        ResolveError::MalformedMultiface => ProxygenError::MulticardHasMalformedNames(name),
        ResolveError::Other(detail) => ProxygenError::Other(detail),
    }
}

/// Whether `resolve`, asked for the card named `name`, may give `answer`.
pub open spec fn may_answer<C, F: Fn(&str) -> Result<C, ResolveError>>(
    resolve: F,
    name: Seq<char>,
    answer: Result<C, ResolveError>,
) -> bool {
    exists|asked: &str| asked@ == name && call_ensures(resolve, (asked,), answer)
}

} // verus!

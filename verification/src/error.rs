//! The ways in which reading a decklist fails.

use vstd::prelude::*;

verus! {

/// Why a decklist was refused. Every variant but the first carries the text
/// that a message to the user needs.
#[derive(Debug, Clone, PartialEq, Eq)]
pub enum ProxygenError {
    /// The decklist asks for more copies than one request may hold.
    TooManyCards,
    /// A line is no entry; the line, trimmed.
    DecklistParseError(String),
    /// The catalog knows no card of this name; the name, normalized.
    InvalidCardName(String),
    /// The catalog found a card of several faces whose names it cannot tell
    /// apart; the name, normalized.
    MulticardHasMalformedNames(String),
    /// Any other failure of the catalog, with what it said.
    Other(String),
}

/// A `ProxygenError` with its texts as sequences of characters.
pub enum ErrorView {
    TooManyCards,
    DecklistParseError(Seq<char>),
    InvalidCardName(Seq<char>),
    MulticardHasMalformedNames(Seq<char>),
    Other(Seq<char>),
}

impl View for ProxygenError {
    type V = ErrorView;

    open spec fn view(&self) -> ErrorView {
        match self {
            ProxygenError::TooManyCards => ErrorView::TooManyCards,
            ProxygenError::DecklistParseError(line) => ErrorView::DecklistParseError(line@),
            ProxygenError::InvalidCardName(name) => ErrorView::InvalidCardName(name@),
            ProxygenError::MulticardHasMalformedNames(name) => ErrorView::MulticardHasMalformedNames(
                name@,
            ),
            ProxygenError::Other(detail) => ErrorView::Other(detail@),
        }
    }
}

} // verus!

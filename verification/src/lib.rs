//! Reads a decklist, a text with one card entry to a line, into the cards
//! it asks for and how many copies of each.
//!
//! A line gives an optional quantity and a card name. The name is
//! normalized, the copies asked for so far are held against a limit, and a
//! catalog, which the caller hands in, is asked for the card. The first line
//! that fails ends the reading with an error that names what failed.

use vstd::prelude::*;

pub mod catalog;
pub mod decklist;
pub mod error;
pub mod limit;
pub mod line;
pub mod normalize;
pub mod pattern;
pub mod text;

pub use decklist::parse_decklist;
pub use normalize::sanitize_name;

//! The bound on how many copies one decklist may ask for.

use vstd::prelude::*;
use crate::error::ProxygenError;
use crate::error::ErrorView;

verus! {

/// The most copies that one decklist may ask for, all its lines together.
pub const MAX_CARDS: u64 = 1000;

/// Adds the copies of one more line to the running total: the new total
/// where it stays within `MAX_CARDS`, and `TooManyCards` where it does not.
pub fn accept(running_total: u64, delta: u64) -> (total: Result<u64, ProxygenError>)
    ensures
        match total {
            Ok(sum) => sum == running_total + delta && sum <= MAX_CARDS,
            Err(error) => running_total + delta > MAX_CARDS && error@ == ErrorView::TooManyCards,
        },
{
    if delta > MAX_CARDS || running_total > MAX_CARDS - delta {
        Err(ProxygenError::TooManyCards)
    } else {
        Ok(running_total + delta)
    }
}

} // verus!

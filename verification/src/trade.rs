use vstd::prelude::*;

use crate::fresh::{fresh_id, now_millis};
use crate::order::{Price, Quantity, Timestamp};

verus! {

/// A completed match between a bid and an ask order: immutable once
/// constructed. `ask` and `bid` carry the identities of the two orders
/// involved; `id` is the trade's own identity.
pub struct Trade {
    pub id: u128,
    pub ask: u128,
    pub bid: u128,
    pub quantity: Quantity,
    pub price: Price,
    pub timestamp: Timestamp,
}

impl Trade {
    /// A record of a settled match, with a newly drawn identity and the
    /// current time as its timestamp.
    pub fn new(ask: u128, bid: u128, quantity: Quantity, price: Price) -> (r: Trade)
        ensures
            r.ask == ask,
            r.bid == bid,
            r.quantity == quantity,
            r.price == price,
    {
        Trade {
            ask,
            bid,
            quantity,
            price,
            id: fresh_id(),
            timestamp: now_millis(),
        }
    }
}

} // verus!

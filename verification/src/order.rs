use vstd::prelude::*;

use crate::fresh::{fresh_id, now_millis};
use crate::has_id::HasId;

verus! {

pub type Price = u32;

pub type Quantity = u64;

pub type Timestamp = i64;

/// Which side of the book an order rests on.
#[derive(Eq, Clone, PartialEq, Debug)]
pub enum Side {
    Ask,
    Bid,
}

/// How an order is to be matched.
#[derive(Eq, Clone, PartialEq, Debug)]
pub enum Mode {
    Limit,
    Market,
}

/// A resting buy or sell instruction with exact partial-fill
/// bookkeeping: `executed` never exceeds `quantity`, and only the
/// execution operation ever raises it.
#[derive(Eq, Clone, PartialEq, Debug)]
pub struct Order {
    pub id: u128,
    pub owner: u128,
    pub quantity: Quantity,
    pub price: Price,
    pub executed: Quantity,
    pub timestamp: Timestamp,
    pub side: Side,
    pub mode: Mode,
}

impl Order {
    /// The bookkeeping invariant: the matched amount never exceeds the
    /// requested amount.
    pub open spec fn wf(self) -> bool {
        self.executed <= self.quantity
    }

    /// The amount still eligible to be matched.
    pub open spec fn pending(self) -> int {
        self.quantity - self.executed
    }

    /// A fresh order: nothing executed yet, a newly drawn identity,
    /// and the current time as its timestamp.
    pub fn new(owner: u128, quantity: Quantity, price: Price, side: Side, mode: Mode) -> (r: Order)
        ensures
            r.owner == owner,
            r.quantity == quantity,
            r.price == price,
            r.side == side,
            r.mode == mode,
            r.executed == 0,
            r.wf(),
    {
        Order {
            owner,
            price,
            quantity,
            side,
            mode,
            executed: 0,
            id: fresh_id(),
            timestamp: now_millis(),
        }
    }

    /// Whether the order has been fully matched.
    pub fn is_complete(&self) -> (r: bool)
        ensures
            r == (self.quantity <= self.executed),
    {
        self.quantity <= self.executed
    }

    /// The amount still eligible to be matched.
    pub fn get_pending(&self) -> (r: Quantity)
        requires
            self.wf(),
        ensures
            r == self.pending(),
    {
        self.quantity - self.executed
    }

    /// Execute up to `quantity` units against the pending amount and
    /// return the remainder that could not be met here. The pending
    /// amount is filled first; only a request beyond it leaves a
    /// remainder, and the order is then fully executed.
    pub fn execute(&mut self, quantity: Quantity) -> (r: Quantity)
        requires
            old(self).wf(),
        ensures
            final(self).wf(),
            final(self).id == old(self).id,
            final(self).owner == old(self).owner,
            final(self).quantity == old(self).quantity,
            final(self).price == old(self).price,
            final(self).timestamp == old(self).timestamp,
            final(self).side == old(self).side,
            final(self).mode == old(self).mode,
            quantity < old(self).pending() ==> final(self).executed == old(self).executed
                + quantity && r == 0,
            quantity >= old(self).pending() ==> final(self).executed == final(self).quantity && r
                == quantity - old(self).pending(),
    {
        let pending: Quantity = self.quantity - self.executed;
        if pending < quantity {
            self.executed = self.quantity;
            quantity - pending
        } else if pending == quantity {
            self.executed = self.quantity;
            0
        } else {
            self.executed = self.executed + quantity;
            0
        }
    }
}

impl HasId for Order {
    open spec fn id_spec(&self) -> u128 {
        self.id
    }

    fn id(&self) -> (r: u128) {
        self.id
    }
}

} // verus!

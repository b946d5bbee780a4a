//! A single trade as the feed reports it.

use vstd::prelude::*;
use crate::sources::{random_id, wall_clock};

verus! {

/// Which side of the book the taker was on.
#[derive(Clone, Copy, Debug, PartialEq, Eq, Structural)]
pub enum Side {
    Buy,
    Sell,
}

/// One trade. A value of this type is never changed after it is made.
#[derive(Debug, PartialEq, Eq)]
pub struct Transaction {
    pub id: String,
    pub symbol: String,
    /// Price in ticks.
    pub price: u64,
    /// Quantity in lots.
    pub amount: u64,
    pub side: Side,
    /// Whole seconds since the epoch at which the trade happened.
    pub timestamp: i64,
    /// Nanoseconds past `timestamp`.
    pub timestamp_nanos: u32,
}

impl Clone for Transaction {
    fn clone(&self) -> (t: Transaction)
        ensures
            t == *self,
    {
        Transaction {
            id: self.id.clone(),
            symbol: self.symbol.clone(),
            price: self.price,
            amount: self.amount,
            side: self.side,
            timestamp: self.timestamp,
            timestamp_nanos: self.timestamp_nanos,
        }
    }
}

impl Transaction {
    /// A trade that happened now, under a fresh random identifier.
    ///
    /// The identifier and the instant differ from call to call; the rest is
    /// what the caller gave.
    pub fn new(symbol: String, price: u64, amount: u64, side: Side) -> (t: Transaction)
        ensures
            t.symbol == symbol,
            t.price == price,
            t.amount == amount,
            t.side == side,
            t.id@.len() == 36,
            t.timestamp >= 0,
            t.timestamp_nanos < 1_000_000_000,
    {
        let id = random_id();
        let now = wall_clock();
        Transaction::stamped(id, symbol, price, amount, side, now.0, now.1)
    }

    /// The trade with the given identifier and instant.
    pub fn stamped(
        id: String,
        symbol: String,
        price: u64,
        amount: u64,
        side: Side,
        timestamp: i64,
        timestamp_nanos: u32,
    ) -> (t: Transaction)
        ensures
            t == (Transaction { id, symbol, price, amount, side, timestamp, timestamp_nanos }),
    {
        Transaction { id, symbol, price, amount, side, timestamp, timestamp_nanos }
    }
}

} // verus!

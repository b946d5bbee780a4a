//! The decisions of one live connection: which trades go to the client and
//! when the connection ends. The caller does the waiting and the writing and
//! reports what happened.

use vstd::prelude::*;
use crate::transaction::Transaction;

verus! {

/// What happened on the sending side of a connection.
#[derive(Debug, PartialEq, Eq)]
pub enum FeedEvent {
    /// The bus handed over a trade.
    Trade(Transaction),
    /// The bus is closed, or this listener fell behind and lost trades.
    BusLost,
    /// The trade could not be put into the form that the client reads.
    EncodeFailed,
    /// The trade was written to the client.
    Delivered,
    /// The trade could not be written to the client.
    DeliveryFailed,
}

/// What the connection does next.
#[derive(Debug, PartialEq, Eq)]
pub enum FeedAction {
    /// Encode this trade and write it to the client.
    Deliver(Transaction),
    /// Wait for the next trade.
    Wait,
    /// End the connection.
    Close,
}

/// What the client sent.
#[derive(Clone, Copy, Debug, PartialEq, Eq, Structural)]
pub enum ClientFrame {
    /// A text message.
    Text,
    /// The request to close.
    Close,
    /// Any other message.
    Other,
    /// Reading from the client failed.
    Failed,
}

/// What a connection subscribed to `symbol` does after `event`.
pub open spec fn feed_decision(symbol: Seq<char>, event: FeedEvent) -> FeedAction {
    match event {
        FeedEvent::Trade(trade) => if trade.symbol@ == symbol {
            FeedAction::Deliver(trade)
        } else {
            FeedAction::Wait
        },
        FeedEvent::BusLost => FeedAction::Close,
        FeedEvent::EncodeFailed => FeedAction::Wait,
        FeedEvent::Delivered => FeedAction::Wait,
        FeedEvent::DeliveryFailed => FeedAction::Close,
    }
}

/// Decides what a connection subscribed to `symbol` does after `event`.
///
/// A trade of the symbol is delivered, in the order in which the bus
/// handed it over, and a trade of another symbol is passed over. A trade
/// that cannot be encoded is dropped and the connection goes on. The
/// connection ends when the bus is lost or a write to the client fails.
pub fn next_action(symbol: &str, event: FeedEvent) -> (action: FeedAction)
    ensures
        action == feed_decision(symbol@, event),
{
    match event {
        FeedEvent::Trade(trade) => {
            if same_text(trade.symbol.as_str(), symbol) {
                FeedAction::Deliver(trade)
            } else {
                FeedAction::Wait
            }
        },
        FeedEvent::BusLost => FeedAction::Close,
        FeedEvent::EncodeFailed => FeedAction::Wait,
        FeedEvent::Delivered => FeedAction::Wait,
        FeedEvent::DeliveryFailed => FeedAction::Close,
    }
}

/// Whether the connection keeps reading from the client after `frame`: it
/// stops at the request to close and when reading fails.
pub fn keeps_reading(frame: ClientFrame) -> (keeps: bool)
    ensures
        keeps == (frame == ClientFrame::Text || frame == ClientFrame::Other),
{
    match frame {
        ClientFrame::Text => true,
        ClientFrame::Close => false,
        ClientFrame::Other => true,
        ClientFrame::Failed => false,
    }
}

/// Whether two texts hold the same characters.
pub fn same_text(a: &str, b: &str) -> (same: bool)
    ensures
        same == (a@ == b@),
{
    let a = a.to_owned();
    let b = b.to_owned();
    a == b
}

} // verus!

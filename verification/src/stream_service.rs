//! The trade event bus: for every symbol the listeners that want its
//! trades, each behind a bounded broadcast channel of its own.
//!
//! A listener that is too slow loses the oldest messages that it has not
//! read; a listener that has gone away is dropped at the next broadcast to
//! its symbol. Neither holds up the others.

use dashmap::DashMap;
use tokio::sync::broadcast::{Receiver, Sender};
use vstd::prelude::*;

verus! {

/// Number of messages that a listener's channel holds.
pub const LISTENER_CAPACITY: usize = 100;

/// Declares `tokio::sync::broadcast::Sender`, the sending half of a
/// broadcast channel, as an opaque type.
#[verifier::external_type_specification]
#[verifier::external_body]
#[verifier::reject_recursive_types(T)]
pub struct ExSender<T>(Sender<T>);

/// Declares `tokio::sync::broadcast::Receiver`, the receiving half of a
/// broadcast channel, as an opaque type.
#[verifier::external_type_specification]
#[verifier::external_body]
#[verifier::reject_recursive_types(T)]
pub struct ExReceiver<T>(Receiver<T>);

/// What a map of listeners holds: for each symbol that has an entry, the
/// sending halves of its listeners' channels in the order of subscription.
pub uninterp spec fn listener_entries(connections: DashMap<String, Vec<Sender<String>>>) -> Map<
    Seq<char>,
    Seq<Sender<String>>,
>;

/// The bus on which nobody listens.
pub open spec fn no_listeners() -> Map<Seq<char>, Seq<Sender<String>>> {
    Map::empty()
}

/// `DashMap::new`: a map that holds nothing.
#[verifier::external_body]
fn listeners_new() -> (connections: DashMap<String, Vec<Sender<String>>>)
    ensures
        listener_entries(connections) == no_listeners(),
{
    DashMap::new()
}

/// `DashMap::remove`: takes the entry of `symbol` out of the map and hands
/// its value over, if there is one; no other entry changes.
#[verifier::external_body]
fn listeners_take(connections: &mut DashMap<String, Vec<Sender<String>>>, symbol: &str) -> (taken:
    Option<Vec<Sender<String>>>)
    ensures
        listener_entries(*final(connections)) == listener_entries(*old(connections)).remove(
            symbol@,
        ),
        match taken {
            Some(senders) => listener_entries(*old(connections)).contains_key(symbol@)
                && senders@ == listener_entries(*old(connections))[symbol@],
            None => !listener_entries(*old(connections)).contains_key(symbol@),
        },
{
    connections.remove(symbol).map(|entry| entry.1)
}

/// `DashMap::insert`: puts `senders` under `symbol`, in place of the value
/// that was there, if any; no other entry changes.
#[verifier::external_body]
fn listeners_put(
    connections: &mut DashMap<String, Vec<Sender<String>>>,
    symbol: String,
    senders: Vec<Sender<String>>,
)
    ensures
        listener_entries(*final(connections)) == listener_entries(*old(connections)).insert(
            symbol@,
            senders@,
        ),
{
    connections.insert(symbol, senders);
}

/// `tokio::sync::broadcast::channel`: a new channel that keeps the last
/// `capacity` messages for each receiver. Tokio panics on a capacity of
/// zero or above `usize::MAX / 2`, so those are left out.
#[verifier::external_body]
fn open_channel(capacity: usize) -> (ends: (Sender<String>, Receiver<String>))
    requires
        0 < capacity <= usize::MAX / 2,
{
    tokio::sync::broadcast::channel(capacity)
}

/// `Sender::send`: hands a copy of `message` to the channel and tells
/// whether any receiver was there to take it. Whether one was depends on
/// what the holders of the receivers did, so nothing is claimed of the
/// answer.
#[verifier::external_body]
fn deliver(sender: &Sender<String>, message: &str) -> (delivered: bool) {
    sender.send(message.to_string()).is_ok()
}

/// The items of `items` whose place in `keep` holds `true`, in their order.
pub open spec fn kept<T>(items: Seq<T>, keep: Seq<bool>) -> Seq<T>
    recommends
        items.len() == keep.len(),
    decreases items.len(),
{
    if items.len() == 0 {
        Seq::empty()
    } else if keep.last() {
        kept(items.drop_last(), keep.drop_last()).push(items.last())
    } else {
        kept(items.drop_last(), keep.drop_last())
    }
}

/// The listeners of `symbol` on `bus`; none where the symbol has no entry.
pub open spec fn listeners_of(bus: Map<Seq<char>, Seq<Sender<String>>>, symbol: Seq<char>) -> Seq<
    Sender<String>,
> {
    if bus.contains_key(symbol) {
        bus[symbol]
    } else {
        Seq::empty()
    }
}

/// Keeps the senders whose delivery succeeded, in their order.
pub fn retain_delivered(senders: Vec<Sender<String>>, delivered: &Vec<bool>) -> (live: Vec<
    Sender<String>,
>)
    requires
        senders@.len() == delivered@.len(),
    ensures
        live@ == kept(senders@, delivered@),
{
    let ghost all = senders@;
    let mut senders = senders;
    let mut reversed: Vec<Sender<String>> = Vec::new();
    let mut flags: Vec<bool> = Vec::new();
    while senders.len() > 0
        invariant
            senders@.len() <= all.len(),
            all.len() == delivered@.len(),
            senders@ == all.take(senders@.len() as int),
            reversed@.len() == flags@.len(),
            reversed@.len() + senders@.len() == all.len(),
            forall|k: int|
                0 <= k < reversed@.len() ==> #[trigger] reversed@[k] == all[all.len() - 1 - k],
            forall|k: int|
                0 <= k < flags@.len() ==> #[trigger] flags@[k] == delivered@[all.len() - 1 - k],
        decreases senders@.len(),
    {
        let n = senders.len();
        let sender = senders.pop().unwrap();
        reversed.push(sender);
        flags.push(delivered[n - 1]);
    }
    let mut live: Vec<Sender<String>> = Vec::new();
    let ghost mut done: int = 0;
    assert(all.take(0) =~= Seq::<Sender<String>>::empty());
    while reversed.len() > 0
        invariant
            0 <= done <= all.len(),
            all.len() == delivered@.len(),
            reversed@.len() == flags@.len(),
            reversed@.len() + done == all.len(),
            forall|k: int|
                0 <= k < reversed@.len() ==> #[trigger] reversed@[k] == all[all.len() - 1 - k],
            forall|k: int|
                0 <= k < flags@.len() ==> #[trigger] flags@[k] == delivered@[all.len() - 1 - k],
            live@ == kept(all.take(done), delivered@.take(done)),
        decreases reversed@.len(),
    {
        let sender = reversed.pop().unwrap();
        let keep = flags.pop().unwrap();
        proof {
            assert(sender == all[done]);
            assert(keep == delivered@[done]);
            assert(all.take(done + 1).drop_last() =~= all.take(done));
            assert(delivered@.take(done + 1).drop_last() =~= delivered@.take(done));
            assert(all.take(done + 1).last() == all[done]);
            assert(delivered@.take(done + 1).last() == delivered@[done]);
        }
        if keep {
            live.push(sender);
        }
        proof {
            done = done + 1;
        }
    }
    assert(all.take(done) =~= all);
    assert(delivered@.take(done) =~= delivered@);
    live
}

/// The trade event bus.
pub struct StreamService {
    connections: DashMap<String, Vec<Sender<String>>>,
}

impl View for StreamService {
    type V = Map<Seq<char>, Seq<Sender<String>>>;

    closed spec fn view(&self) -> Map<Seq<char>, Seq<Sender<String>>> {
        listener_entries(self.connections)
    }
}

impl StreamService {
    /// A bus on which nobody listens.
    pub fn new() -> (service: StreamService)
        ensures
            service@ == no_listeners(),
    {
        StreamService { connections: listeners_new() }
    }

    /// Subscribes a new listener to `symbol` and returns the receiving
    /// half of its channel. The listener comes last among the listeners of
    /// the symbol; no other listener changes.
    pub fn add_connection(&mut self, symbol: &str) -> (receiver: Receiver<String>)
        ensures
            final(self)@.contains_key(symbol@),
            final(self)@[symbol@].len() == listeners_of(old(self)@, symbol@).len() + 1,
            final(self)@[symbol@].drop_last() == listeners_of(old(self)@, symbol@),
            final(self)@.remove(symbol@) == old(self)@.remove(symbol@),
    {
        let ends = open_channel(LISTENER_CAPACITY);
        let mut senders = match listeners_take(&mut self.connections, symbol) {
            Some(senders) => senders,
            None => Vec::new(),
        };
        let ghost before = senders@;
        senders.push(ends.0);
        assert(senders@.drop_last() =~= before);
        listeners_put(&mut self.connections, symbol.to_owned(), senders);
        assert(self@.remove(symbol@) =~= old(self)@.remove(symbol@));
        ends.1
    }

    /// Sends `message` to every listener of `symbol` and drops the
    /// listeners that are no longer there to take it.
    ///
    /// The listeners that stay keep their order. A symbol without an entry
    /// gets none, and no other symbol's listeners change.
    pub fn broadcast_to_symbol(&mut self, symbol: &str, message: &str)
        ensures
            final(self)@.dom() == old(self)@.dom(),
            final(self)@.remove(symbol@) == old(self)@.remove(symbol@),
            old(self)@.contains_key(symbol@) ==> exists|delivered: Seq<bool>|
                delivered.len() == old(self)@[symbol@].len() && final(self)@[symbol@] == kept(
                    old(self)@[symbol@],
                    delivered,
                ),
    {
        match listeners_take(&mut self.connections, symbol) {
            Some(senders) => {
                let mut delivered: Vec<bool> = Vec::new();
                let mut i: usize = 0;
                while i < senders.len()
                    invariant
                        i <= senders@.len(),
                        delivered@.len() == i,
                    decreases senders@.len() - i,
                {
                    delivered.push(deliver(&senders[i], message));
                    i = i + 1;
                }
                let live = retain_delivered(senders, &delivered);
                listeners_put(&mut self.connections, symbol.to_owned(), live);
                assert(self@.dom() =~= old(self)@.dom());
                assert(self@.remove(symbol@) =~= old(self)@.remove(symbol@));
                assert(delivered@.len() == old(self)@[symbol@].len() && self@[symbol@] == kept(
                    old(self)@[symbol@],
                    delivered@,
                ));
            },
            None => {
                assert(self@ =~= old(self)@);
            },
        }
    }

    /// Number of listeners subscribed to `symbol`.
    pub fn listener_count(&mut self, symbol: &str) -> (n: usize)
        ensures
            final(self)@ == old(self)@,
            n == listeners_of(old(self)@, symbol@).len(),
    {
        match listeners_take(&mut self.connections, symbol) {
            Some(senders) => {
                let n = senders.len();
                listeners_put(&mut self.connections, symbol.to_owned(), senders);
                assert(self@ =~= old(self)@);
                n
            },
            None => {
                assert(self@ =~= old(self)@);
                0
            },
        }
    }
}

} // verus!

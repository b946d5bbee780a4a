//! One candlestick: the open, high, low, close and volume of the trades that
//! fell into one window of one symbol.
//!
//! Prices and quantities are whole numbers of the smallest unit that the
//! feed quotes; the library never divides them.

use vstd::prelude::*;
use crate::interval::Interval;

verus! {

/// Ticks that make up one unit of price.
pub const PRICE_SCALE: u64 = 1_000_000_000_000;

/// Lots that make up one unit of quantity.
pub const QUANTITY_SCALE: u64 = 1_000;

/// The value that `low` holds while a bar has seen no trade.
pub const LOW_SENTINEL: u64 = u64::MAX;

/// Why a trade was not applied to a bar.
#[derive(Clone, Copy, Debug, PartialEq, Eq, Structural)]
pub enum TradeError {
    /// The price is zero.
    InvalidPrice,
    /// The quantity is zero.
    InvalidQuantity,
    /// The bar's volume would no longer fit in 64 bits.
    VolumeOverflow,
    /// The hour that holds the trade starts before the earliest
    /// representable second.
    TimestampOutOfRange,
}

/// The reason for which a bar that holds `volume` turns a trade down, if it
/// does: a zero price, else a zero quantity, else a volume past `u64::MAX`.
pub open spec fn trade_refusal(volume: nat, price: nat, quantity: nat) -> Option<TradeError> {
    if price == 0 {
        Some(TradeError::InvalidPrice)
    } else if quantity == 0 {
        Some(TradeError::InvalidQuantity)
    } else if volume + quantity > u64::MAX {
        Some(TradeError::VolumeOverflow)
    } else {
        None
    }
}

/// What a bar reads of one trade.
pub struct Fill {
    pub price: nat,
    pub quantity: nat,
}

/// The mathematical value of a bar.
pub struct KlineView {
    pub timestamp: int,
    pub open: nat,
    pub high: nat,
    pub low: nat,
    pub close: nat,
    pub volume: nat,
    pub symbol: Seq<char>,
    pub interval: Interval,
}

impl KlineView {
    /// The bar of a window in which nothing has traded yet.
    pub open spec fn fresh(timestamp: int, symbol: Seq<char>, interval: Interval) -> KlineView {
        KlineView {
            timestamp,
            open: 0,
            high: 0,
            low: LOW_SENTINEL as nat,
            close: 0,
            volume: 0,
            symbol,
            interval,
        }
    }

    /// No trade has been applied.
    pub open spec fn is_fresh(self) -> bool {
        self.open == 0 && self.high == 0 && self.low == LOW_SENTINEL && self.close == 0
            && self.volume == 0
    }

    /// At least one trade has been applied and the five numbers agree with
    /// each other.
    pub open spec fn is_traded(self) -> bool {
        &&& 0 < self.low <= self.open <= self.high <= u64::MAX
        &&& self.low <= self.close <= self.high
        &&& 0 < self.volume <= u64::MAX
    }

    /// The reason for which the bar turns the trade down, if it does.
    pub open spec fn refusal(self, price: nat, quantity: nat) -> Option<TradeError> {
        trade_refusal(self.volume, price, quantity)
    }

    /// The bar after one more trade. The first trade fixes `open`; every
    /// trade moves `close`, widens `high` and `low`, and adds to `volume`.
    pub open spec fn apply(self, price: nat, quantity: nat) -> KlineView {
        KlineView {
            open: if self.open == 0 {
                price
            } else {
                self.open
            },
            high: if price > self.high {
                price
            } else {
                self.high
            },
            low: if price < self.low {
                price
            } else {
                self.low
            },
            close: price,
            volume: self.volume + quantity,
            ..self
        }
    }

    /// The bar after the trades of `fills`, applied first to last.
    pub open spec fn apply_all(self, fills: Seq<Fill>) -> KlineView
        decreases fills.len(),
    {
        if fills.len() == 0 {
            self
        } else {
            self.apply_all(fills.drop_last()).apply(fills.last().price, fills.last().quantity)
        }
    }
}

/// Sum of the quantities of `fills`.
pub open spec fn total_quantity(fills: Seq<Fill>) -> nat
    decreases fills.len(),
{
    if fills.len() == 0 {
        0
    } else {
        total_quantity(fills.drop_last()) + fills.last().quantity
    }
}

/// A bar of one symbol, one interval and one window.
#[derive(Debug, PartialEq, Eq)]
pub struct Kline {
    /// Start of the window, in seconds since the epoch.
    pub timestamp: i64,
    pub open: u64,
    pub high: u64,
    pub low: u64,
    pub close: u64,
    pub volume: u64,
    pub symbol: String,
    pub interval: Interval,
}

impl View for Kline {
    type V = KlineView;

    open spec fn view(&self) -> KlineView {
        KlineView {
            timestamp: self.timestamp as int,
            open: self.open as nat,
            high: self.high as nat,
            low: self.low as nat,
            close: self.close as nat,
            volume: self.volume as nat,
            symbol: self.symbol@,
            interval: self.interval,
        }
    }
}

impl Clone for Kline {
    fn clone(&self) -> (bar: Kline)
        ensures
            bar == *self,
    {
        Kline {
            timestamp: self.timestamp,
            open: self.open,
            high: self.high,
            low: self.low,
            close: self.close,
            volume: self.volume,
            symbol: self.symbol.clone(),
            interval: self.interval,
        }
    }
}

impl Kline {
    /// The bar of a window in which nothing has traded yet.
    pub fn new(timestamp: i64, symbol: String, interval: Interval) -> (bar: Kline)
        ensures
            bar@ == KlineView::fresh(timestamp as int, symbol@, interval),
            bar.symbol == symbol,
    {
        Kline {
            timestamp,
            open: 0,
            high: 0,
            low: LOW_SENTINEL,
            close: 0,
            volume: 0,
            symbol,
            interval,
        }
    }

    /// Applies one trade. A zero price, a zero quantity or a volume that
    /// would pass `u64::MAX` is refused and leaves the bar as it was.
    pub fn update_with_price(&mut self, price: u64, volume: u64) -> (r: Result<(), TradeError>)
        ensures
            r == (match old(self)@.refusal(price as nat, volume as nat) {
                Some(e) => Err(e),
                None => Ok(()),
            }),
            r.is_ok() ==> final(self)@ == old(self)@.apply(price as nat, volume as nat),
            r.is_ok() ==> final(self).symbol == old(self).symbol,
            r.is_err() ==> *final(self) == *old(self),
    {
        if price == 0 {
            return Err(TradeError::InvalidPrice);
        }
        if volume == 0 {
            return Err(TradeError::InvalidQuantity);
        }
        if volume > u64::MAX - self.volume {
            return Err(TradeError::VolumeOverflow);
        }
        if self.open == 0 {
            self.open = price;
        }
        if price > self.high {
            self.high = price;
        }
        if price < self.low {
            self.low = price;
        }
        self.close = price;
        self.volume = self.volume + volume;
        Ok(())
    }
}

/// The answer to a query for bars.
#[derive(Debug, PartialEq, Eq)]
pub struct KlineResponse {
    pub symbol: String,
    pub interval: Interval,
    pub data: Vec<Kline>,
}

/// The values of a run of bars.
pub open spec fn bar_views(bars: Seq<Kline>) -> Seq<KlineView> {
    bars.map_values(|bar: Kline| bar@)
}

/// A trade that a bar accepts: its price is positive and fits in 64 bits,
/// and so does its quantity.
pub open spec fn fill_is_valid(fill: Fill) -> bool {
    0 < fill.price <= u64::MAX && 0 < fill.quantity <= u64::MAX
}

/// One trade turns a fresh or traded bar into a traded one, as long as the
/// volume still fits.
pub proof fn lemma_apply_keeps_shape(bar: KlineView, fill: Fill)
    requires
        bar.is_fresh() || bar.is_traded(),
        fill_is_valid(fill),
        bar.volume + fill.quantity <= u64::MAX,
    ensures
        bar.apply(fill.price, fill.quantity).is_traded(),
{
}

/// After any non-empty run of valid trades on a fresh bar, `open` is the
/// first price, `close` the last, `high` the greatest and `low` the least
/// price of the run, and `volume` the sum of its quantities, in whatever
/// order the prices came.
pub proof fn lemma_bar_summarises_trades(
    timestamp: int,
    symbol: Seq<char>,
    interval: Interval,
    fills: Seq<Fill>,
)
    requires
        fills.len() > 0,
        forall|i: int| 0 <= i < fills.len() ==> fill_is_valid(#[trigger] fills[i]),
    ensures
        ({
            let bar = KlineView::fresh(timestamp, symbol, interval).apply_all(fills);
            &&& bar.open == fills[0].price
            &&& bar.close == fills.last().price
            &&& forall|i: int| 0 <= i < fills.len() ==> bar.low <= (#[trigger] fills[i]).price <= bar.high
            &&& exists|i: int| 0 <= i < fills.len() && (#[trigger] fills[i]).price == bar.high
            &&& exists|i: int| 0 <= i < fills.len() && (#[trigger] fills[i]).price == bar.low
            &&& bar.volume == total_quantity(fills)
            &&& bar.timestamp == timestamp
            &&& bar.symbol == symbol
            &&& bar.interval == interval
        }),
    decreases fills.len(),
{
    let start = KlineView::fresh(timestamp, symbol, interval);
    let head = fills.drop_last();
    let bar = start.apply_all(fills);
    if head.len() == 0 {
        assert(start.apply_all(head) == start);
        assert(total_quantity(head) == 0);
        assert(fills[0].price == bar.high);
        assert(fills[0].price == bar.low);
    } else {
        lemma_bar_summarises_trades(timestamp, symbol, interval, head);
        let before = start.apply_all(head);
        assert(forall|i: int| 0 <= i < head.len() ==> head[i] == fills[i]);
        let hi = choose|i: int| 0 <= i < head.len() && (#[trigger] head[i]).price == before.high;
        let lo = choose|i: int| 0 <= i < head.len() && (#[trigger] head[i]).price == before.low;
        let last = fills.len() - 1;
        if fills.last().price > before.high {
            assert(fills[last].price == bar.high);
        } else {
            assert(fills[hi].price == bar.high);
        }
        if fills.last().price < before.low {
            assert(fills[last].price == bar.low);
        } else {
            assert(fills[lo].price == bar.low);
        }
        assert forall|i: int| 0 <= i < fills.len() implies bar.low <= (#[trigger] fills[i]).price
            <= bar.high by {
            if i < head.len() {
                assert(head[i] == fills[i]);
            }
        }
    }
}

} // verus!

//! The five series of one symbol, one for each interval. A trade reaches
//! all five or none.

use vstd::prelude::*;
use crate::interval::{
    lemma_window_start_bounds, lemma_windows_nest, window_start, Interval, INTERVAL_COUNT,
};
use crate::kline::{bar_views, Kline, TradeError};
use crate::series::{lemma_step_keeps_order, lemma_step_keeps_wf, Series, SeriesView, Tick};
use crate::transaction::Transaction;

verus! {

/// The mathematical value of a book: its series in the order of
/// `Interval::at`.
pub struct BookView {
    pub series: Seq<SeriesView>,
}

impl BookView {
    /// The book of a symbol that has not traded.
    pub open spec fn empty() -> BookView {
        BookView { series: Seq::new(INTERVAL_COUNT as nat, |i: int| SeriesView::empty()) }
    }

    /// The series of `interval`.
    pub open spec fn of(self, interval: Interval) -> SeriesView {
        self.series[interval.ordinal()]
    }

    /// The invariant of the book of `symbol`: one well-formed series for
    /// each interval.
    pub open spec fn wf(self, symbol: Seq<char>) -> bool {
        &&& self.series.len() == INTERVAL_COUNT
        &&& forall|i: int|
            0 <= i < INTERVAL_COUNT ==> (#[trigger] self.series[i]).wf(symbol, Interval::at(i))
    }

    /// Some bar's volume has no room left for a trade of `quantity` at
    /// second `time`.
    pub open spec fn overflows(self, time: int, quantity: nat) -> bool {
        exists|i: int|
            0 <= i < INTERVAL_COUNT && (#[trigger] self.series[i]).open_volume(
                window_start(time, Interval::at(i)),
            ) + quantity > u64::MAX
    }

    /// The reason for which the book turns the trade down, if it does: a
    /// zero price, else a zero quantity, else an hour that starts before the
    /// earliest representable second, else a volume that would overflow.
    pub open spec fn refusal(self, time: int, price: nat, quantity: nat) -> Option<TradeError> {
        if price == 0 {
            Some(TradeError::InvalidPrice)
        } else if quantity == 0 {
            Some(TradeError::InvalidQuantity)
        } else if window_start(time, Interval::OneHour) < i64::MIN {
            Some(TradeError::TimestampOutOfRange)
        } else if self.overflows(time, quantity) {
            Some(TradeError::VolumeOverflow)
        } else {
            None
        }
    }

    /// The book after a trade at second `time`: every series has taken the
    /// trade into the window of its own interval that holds `time`.
    pub open spec fn ingest(self, symbol: Seq<char>, time: int, price: nat, quantity: nat) -> BookView {
        BookView {
            series: Seq::new(
                INTERVAL_COUNT as nat,
                |i: int|
                    self.series[i].ingest(
                        symbol,
                        Interval::at(i),
                        window_start(time, Interval::at(i)),
                        price,
                        quantity,
                    ),
            ),
        }
    }
}

/// A trade that the book accepts does to the series of every interval what
/// `SeriesView::step` says of that series alone, so what holds of a series
/// after a run of trades holds of each series of a book.
pub proof fn lemma_ingest_steps_each_series(
    book: BookView,
    symbol: Seq<char>,
    tick: Tick,
    interval: Interval,
)
    requires
        book.series.len() == INTERVAL_COUNT,
        book.refusal(tick.time, tick.price, tick.quantity) is None,
    ensures
        book.ingest(symbol, tick.time, tick.price, tick.quantity).of(interval) == book.of(
            interval,
        ).step(symbol, interval, tick),
{
    let i = interval.ordinal();
    assert(Interval::at(i) == interval);
    assert(book.series[i].open_volume(window_start(tick.time, Interval::at(i))) + tick.quantity
        <= u64::MAX);
}

/// A trade that the book accepts and that is not older than the open bar
/// of a chronological series leaves that series chronological: its closed
/// bars keep strictly increasing windows, none of them twice and none the
/// open bar's.
pub proof fn lemma_ingest_in_order_keeps_order(
    book: BookView,
    symbol: Seq<char>,
    tick: Tick,
    interval: Interval,
)
    requires
        book.wf(symbol),
        book.refusal(tick.time, tick.price, tick.quantity) is None,
        book.of(interval).chronological(),
        book.of(interval).current matches Some(bar) ==> bar.timestamp <= window_start(
            tick.time,
            interval,
        ),
    ensures
        book.ingest(symbol, tick.time, tick.price, tick.quantity).of(interval).chronological(),
{
    lemma_ingest_steps_each_series(book, symbol, tick, interval);
    assert(Interval::at(interval.ordinal()) == interval);
    lemma_step_keeps_order(book.of(interval), symbol, interval, tick);
}

/// The five series of one symbol.
pub struct SymbolBook {
    series: Vec<Series>,
}

impl View for SymbolBook {
    type V = BookView;

    closed spec fn view(&self) -> BookView {
        BookView { series: self.series@.map_values(|s: Series| s@) }
    }
}

impl SymbolBook {
    /// The book of a symbol that has not traded.
    pub(crate) fn new() -> (book: SymbolBook)
        ensures
            book@ == BookView::empty(),
            forall|symbol: Seq<char>| book@.wf(symbol),
    {
        let mut series: Vec<Series> = Vec::new();
        let mut i: usize = 0;
        while i < INTERVAL_COUNT
            invariant
                i <= INTERVAL_COUNT,
                series@.len() == i,
                forall|j: int| 0 <= j < i ==> (#[trigger] series@[j])@ == SeriesView::empty(),
            decreases INTERVAL_COUNT - i,
        {
            series.push(Series::new());
            i = i + 1;
        }
        let book = SymbolBook { series };
        assert(book@.series =~= BookView::empty().series);
        book
    }

    /// Takes one trade into all five series, or into none.
    ///
    /// The trade is refused, and the book left as it was, where its price
    /// or quantity is zero, where the hour that holds it starts before the
    /// earliest representable second, or where the volume of a bar would
    /// pass `u64::MAX`.
    pub(crate) fn ingest(&mut self, trade: &Transaction) -> (r: Result<(), TradeError>)
        requires
            old(self)@.wf(trade.symbol@),
        ensures
            r == (match old(self)@.refusal(
                trade.timestamp as int,
                trade.price as nat,
                trade.amount as nat,
            ) {
                Some(e) => Err(e),
                None => Ok(()),
            }),
            r.is_ok() ==> final(self)@ == old(self)@.ingest(
                trade.symbol@,
                trade.timestamp as int,
                trade.price as nat,
                trade.amount as nat,
            ),
            r.is_err() ==> final(self)@ == old(self)@,
            final(self)@.wf(trade.symbol@),
    {
        if trade.price == 0 {
            return Err(TradeError::InvalidPrice);
        }
        if trade.amount == 0 {
            return Err(TradeError::InvalidQuantity);
        }
        if Interval::OneHour.window_start(trade.timestamp).is_none() {
            return Err(TradeError::TimestampOutOfRange);
        }
        let ghost time = trade.timestamp as int;
        let ghost before = self@;
        let mut i: usize = 0;
        while i < INTERVAL_COUNT
            invariant
                i <= INTERVAL_COUNT,
                *self == *old(self),
                before == self@,
                before.wf(trade.symbol@),
                trade.price != 0,
                trade.amount != 0,
                time == trade.timestamp,
                window_start(time, Interval::OneHour) >= i64::MIN,
                forall|j: int|
                    0 <= j < i ==> (#[trigger] before.series[j]).open_volume(
                        window_start(time, Interval::at(j)),
                    ) + trade.amount <= u64::MAX,
            decreases INTERVAL_COUNT - i,
        {
            let interval = Interval::from_index(i).unwrap();
            proof {
                lemma_windows_nest(time, interval, Interval::OneHour);
                lemma_window_start_bounds(time, interval);
            }
            let start = interval.window_start(trade.timestamp).unwrap();
            if !self.series[i].has_room(start, trade.amount) {
                assert(before.series[i as int].open_volume(window_start(time, Interval::at(i as int)))
                    + trade.amount > u64::MAX);
                return Err(TradeError::VolumeOverflow);
            }
            i = i + 1;
        }
        assert(!before.overflows(time, trade.amount as nat));
        let ghost after = before.ingest(
            trade.symbol@,
            time,
            trade.price as nat,
            trade.amount as nat,
        );
        let mut i: usize = 0;
        while i < INTERVAL_COUNT
            invariant
                i <= INTERVAL_COUNT,
                before == old(self)@,
                before.wf(trade.symbol@),
                before.refusal(time, trade.price as nat, trade.amount as nat) is None,
                time == trade.timestamp,
                after == before.ingest(trade.symbol@, time, trade.price as nat, trade.amount as nat),
                self@.series.len() == INTERVAL_COUNT,
                forall|j: int| 0 <= j < i ==> #[trigger] self@.series[j] == after.series[j],
                forall|j: int|
                    i <= j < INTERVAL_COUNT ==> #[trigger] self@.series[j] == before.series[j],
            decreases INTERVAL_COUNT - i,
        {
            let interval = Interval::from_index(i).unwrap();
            proof {
                lemma_windows_nest(time, interval, Interval::OneHour);
                lemma_window_start_bounds(time, interval);
            }
            let start = interval.window_start(trade.timestamp).unwrap();
            let ghost prior = self@;
            let ghost stale = self.series@;
            assert(stale[i as int]@ == prior.series[i as int]);
            assert(before.series[i as int].open_volume(window_start(time, Interval::at(i as int)))
                + trade.amount <= u64::MAX);
            let applied = self.series[i].update_kline(
                trade.symbol.as_str(),
                interval,
                start,
                trade.price,
                trade.amount,
            );
            assert(self.series@ =~= stale.update(i as int, self.series@[i as int]));
            assert(start as int == window_start(time, Interval::at(i as int)));
            assert(stale[i as int]@.refusal(start as int, trade.price as nat, trade.amount as nat)
                is None);
            assert(applied.is_ok());
            assert(self@.series[i as int] == after.series[i as int]);
            assert forall|j: int| 0 <= j < INTERVAL_COUNT && j != i implies #[trigger] self@.series[j]
                == prior.series[j] by {
                assert(self.series@[j] == stale[j]);
            }
            i = i + 1;
        }
        assert(self@.series =~= after.series);
        proof {
            assert forall|j: int| 0 <= j < INTERVAL_COUNT implies (#[trigger] after.series[j]).wf(
                trade.symbol@,
                Interval::at(j),
            ) by {
                let tick = Tick {
                    time,
                    price: trade.price as nat,
                    quantity: trade.amount as nat,
                };
                lemma_windows_nest(time, Interval::at(j), Interval::OneHour);
                lemma_step_keeps_wf(before.series[j], trade.symbol@, Interval::at(j), tick);
            }
        }
        Ok(())
    }

    /// The most recent closed bars of `interval`, oldest first, as many as
    /// `limit` asks for, and after them a copy of the open bar.
    pub(crate) fn get_klines(&self, interval: Interval, limit: Option<usize>) -> (bars: Vec<Kline>)
        requires
            self@.series.len() == INTERVAL_COUNT,
        ensures
            bar_views(bars@) == self@.of(interval).query(limit),
    {
        self.series[interval.index()].get_klines(limit)
    }
}

} // verus!

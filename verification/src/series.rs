//! The rolling series of one symbol and one interval: the bar that is still
//! open and a bounded history of the bars that were closed before it.

use std::collections::VecDeque;
use vstd::prelude::*;
use crate::interval::{
    lemma_window_start_bounds, lemma_window_start_monotonic, window_start, Interval,
};
use crate::kline::{bar_views, total_quantity, trade_refusal, Fill, Kline, KlineView, TradeError};

verus! {

/// Greatest number of closed bars that a series keeps.
pub const HISTORY_CAPACITY: usize = 1000;

/// Number of closed bars that a query returns where it names none.
pub const DEFAULT_LIMIT: usize = 100;

/// Greatest number of closed bars that a query returns.
pub const MAX_LIMIT: usize = 1000;

/// The number of closed bars that a query with `limit` asks for: the limit
/// itself, capped at `MAX_LIMIT`; `DEFAULT_LIMIT` where it is absent or zero.
pub open spec fn effective_limit(limit: Option<usize>) -> nat {
    match limit {
        Some(n) => if n == 0 {
            DEFAULT_LIMIT as nat
        } else if n > MAX_LIMIT {
            MAX_LIMIT as nat
        } else {
            n as nat
        },
        None => DEFAULT_LIMIT as nat,
    }
}

/// The number of closed bars that a query with `limit` asks for.
pub fn resolve_limit(limit: Option<usize>) -> (n: usize)
    ensures
        n == effective_limit(limit),
        0 < n <= MAX_LIMIT,
{
    match limit {
        Some(n) => if n == 0 {
            DEFAULT_LIMIT
        } else if n > MAX_LIMIT {
            MAX_LIMIT
        } else {
            n
        },
        None => DEFAULT_LIMIT,
    }
}

/// What a series reads of one trade: when it happened, at what price, and
/// how much changed hands.
pub struct Tick {
    pub time: int,
    pub price: nat,
    pub quantity: nat,
}

/// A trade that can reach a series of `interval`: the numbers fit their
/// machine types, price and quantity are positive, and the window of the
/// trade starts at a representable second.
pub open spec fn tick_is_valid(tick: Tick, interval: Interval) -> bool {
    &&& 0 < tick.price <= u64::MAX
    &&& 0 < tick.quantity <= u64::MAX
    &&& tick.time <= i64::MAX
    &&& i64::MIN <= window_start(tick.time, interval)
}

/// A closed or open bar of the series of `symbol` and `interval`: it has
/// traded, carries that symbol and interval, and starts on a window boundary.
pub open spec fn bar_belongs(bar: KlineView, symbol: Seq<char>, interval: Interval) -> bool {
    &&& bar.is_traded()
    &&& bar.symbol == symbol
    &&& bar.interval == interval
    &&& i64::MIN <= bar.timestamp <= i64::MAX
    &&& window_start(bar.timestamp, interval) == bar.timestamp
}

/// The mathematical value of a series.
pub struct SeriesView {
    /// The bar that still takes trades, once the series has seen one.
    pub current: Option<KlineView>,
    /// The closed bars, oldest first.
    pub history: Seq<KlineView>,
}

impl SeriesView {
    /// The series that has seen no trade.
    pub open spec fn empty() -> SeriesView {
        SeriesView { current: None, history: Seq::empty() }
    }

    /// The history after `bar` was closed: `bar` comes last, and where that
    /// makes more than `HISTORY_CAPACITY` bars, the oldest one leaves.
    pub open spec fn seal(history: Seq<KlineView>, bar: KlineView) -> Seq<KlineView> {
        let grown = history.push(bar);
        if grown.len() > HISTORY_CAPACITY {
            grown.drop_first()
        } else {
            grown
        }
    }

    /// The open bar is the one of the window that starts at `start`.
    pub open spec fn continues(self, start: int) -> bool {
        self.current matches Some(bar) && bar.timestamp == start
    }

    /// The volume to which a trade of the window at `start` would add.
    pub open spec fn open_volume(self, start: int) -> nat {
        if self.continues(start) {
            self.current.unwrap().volume
        } else {
            0
        }
    }

    /// The reason for which the series turns the trade down, if it does.
    pub open spec fn refusal(self, start: int, price: nat, quantity: nat) -> Option<TradeError> {
        trade_refusal(self.open_volume(start), price, quantity)
    }

    /// The series after a trade of the window at `start`. A trade of the
    /// open bar's window is applied to that bar. Any other trade closes the
    /// open bar, if there is one, and opens the bar of its own window.
    pub open spec fn ingest(
        self,
        symbol: Seq<char>,
        interval: Interval,
        start: int,
        price: nat,
        quantity: nat,
    ) -> SeriesView {
        let opened = KlineView::fresh(start, symbol, interval).apply(price, quantity);
        match self.current {
            Some(bar) => if bar.timestamp == start {
                SeriesView { current: Some(bar.apply(price, quantity)), history: self.history }
            } else {
                SeriesView { current: Some(opened), history: Self::seal(self.history, bar) }
            },
            None => SeriesView { current: Some(opened), history: self.history },
        }
    }

    /// The series after `tick`: the trade lands in the window that holds
    /// its time; a refused trade changes nothing.
    pub open spec fn step(self, symbol: Seq<char>, interval: Interval, tick: Tick) -> SeriesView {
        let start = window_start(tick.time, interval);
        if self.refusal(start, tick.price, tick.quantity) is None {
            self.ingest(symbol, interval, start, tick.price, tick.quantity)
        } else {
            self
        }
    }

    /// The series after the trades of `ticks`, in the order of arrival.
    pub open spec fn run(self, symbol: Seq<char>, interval: Interval, ticks: Seq<Tick>) -> SeriesView
        decreases ticks.len(),
    {
        if ticks.len() == 0 {
            self
        } else {
            self.run(symbol, interval, ticks.drop_last()).step(symbol, interval, ticks.last())
        }
    }

    /// The `limit` most recent closed bars, oldest first; all of them where
    /// there are no more than `limit`.
    pub open spec fn closed(self, limit: nat) -> Seq<KlineView> {
        if self.history.len() > limit {
            self.history.subrange(self.history.len() - limit, self.history.len() as int)
        } else {
            self.history
        }
    }

    /// The open bar as a run of no bar or one.
    pub open spec fn open_bar(self) -> Seq<KlineView> {
        match self.current {
            Some(bar) => seq![bar],
            None => Seq::empty(),
        }
    }

    /// What a query with `limit` returns: the most recent closed bars,
    /// oldest first, and after them the open bar.
    pub open spec fn query(self, limit: Option<usize>) -> Seq<KlineView> {
        self.closed(effective_limit(limit)) + self.open_bar()
    }

    /// The invariant of the series of `symbol` and `interval`: the history
    /// is within capacity, every bar has traded and belongs here, and bars
    /// were closed only after a bar was opened.
    pub open spec fn wf(self, symbol: Seq<char>, interval: Interval) -> bool {
        &&& self.history.len() <= HISTORY_CAPACITY
        &&& self.current is None ==> self.history.len() == 0
        &&& forall|i: int|
            0 <= i < self.history.len() ==> bar_belongs(#[trigger] self.history[i], symbol, interval)
        &&& self.current matches Some(bar) ==> bar_belongs(bar, symbol, interval)
    }

    /// The windows of the closed bars strictly increase, and the open bar's
    /// window comes after all of them.
    pub open spec fn chronological(self) -> bool {
        &&& forall|i: int, j: int|
            0 <= i < j < self.history.len() ==> (#[trigger] self.history[i]).timestamp
                < (#[trigger] self.history[j]).timestamp
        &&& self.current matches Some(bar) ==> forall|i: int|
            0 <= i < self.history.len() ==> (#[trigger] self.history[i]).timestamp < bar.timestamp
    }
}

/// The series of one symbol and one interval.
pub struct Series {
    current: Option<Kline>,
    history: VecDeque<Kline>,
}

impl View for Series {
    type V = SeriesView;

    closed spec fn view(&self) -> SeriesView {
        SeriesView {
            current: match self.current {
                Some(bar) => Some(bar@),
                None => None,
            },
            history: bar_views(self.history@),
        }
    }
}

impl Series {
    /// The series that has seen no trade.
    pub fn new() -> (series: Series)
        ensures
            series@ == SeriesView::empty(),
    {
        let series = Series { current: None, history: VecDeque::new() };
        assert(bar_views(series.history@) =~= Seq::empty());
        series
    }

    /// Appends a closed bar to the history and, where the history then
    /// holds more than `HISTORY_CAPACITY` bars, drops the oldest.
    fn store_closed_kline(&mut self, kline: Kline)
        ensures
            final(self)@.history == SeriesView::seal(old(self)@.history, kline@),
            final(self)@.current == old(self)@.current,
    {
        self.history.push_back(kline);
        assert(bar_views(self.history@) =~= bar_views(old(self).history@).push(kline@));
        if self.history.len() > HISTORY_CAPACITY {
            let ghost grown = self.history@;
            let _ = self.history.pop_front();
            assert(bar_views(self.history@) =~= bar_views(grown).drop_first());
        }
    }

    /// Whether a trade of `amount` in the window at `start` still fits the
    /// volume of the bar that it would be added to.
    pub fn has_room(&self, start: i64, amount: u64) -> (fits: bool)
        ensures
            fits == (self@.open_volume(start as int) + amount <= u64::MAX),
    {
        match &self.current {
            Some(bar) => bar.timestamp != start || amount <= u64::MAX - bar.volume,
            None => true,
        }
    }

    /// Takes one trade of `symbol` into the window that starts at `start`.
    ///
    /// A trade of the open bar's window updates that bar. Any other trade
    /// closes the open bar into the history and opens a bar for its own
    /// window. A refused trade leaves the series as it was.
    pub fn update_kline(
        &mut self,
        symbol: &str,
        interval: Interval,
        start: i64,
        price: u64,
        amount: u64,
    ) -> (r: Result<(), TradeError>)
        ensures
            r == (match old(self)@.refusal(start as int, price as nat, amount as nat) {
                Some(e) => Err(e),
                None => Ok(()),
            }),
            r.is_ok() ==> final(self)@ == old(self)@.ingest(
                symbol@,
                interval,
                start as int,
                price as nat,
                amount as nat,
            ),
            r.is_err() ==> final(self)@ == old(self)@,
    {
        match self.current.take() {
            Some(mut bar) => {
                if bar.timestamp == start {
                    let applied = bar.update_with_price(price, amount);
                    self.current = Some(bar);
                    applied
                } else {
                    let mut opened = Kline::new(start, symbol.to_owned(), interval);
                    let applied = opened.update_with_price(price, amount);
                    if applied.is_ok() {
                        self.store_closed_kline(bar);
                        self.current = Some(opened);
                    } else {
                        self.current = Some(bar);
                    }
                    applied
                }
            },
            None => {
                let mut opened = Kline::new(start, symbol.to_owned(), interval);
                let applied = opened.update_with_price(price, amount);
                if applied.is_ok() {
                    self.current = Some(opened);
                }
                applied
            },
        }
    }

    /// The most recent closed bars, oldest first, as many as `limit` asks
    /// for, and after them a copy of the open bar.
    pub fn get_klines(&self, limit: Option<usize>) -> (bars: Vec<Kline>)
        ensures
            bar_views(bars@) == self@.query(limit),
    {
        let wanted = resolve_limit(limit);
        let n = self.history.len();
        let first = if n > wanted {
            n - wanted
        } else {
            0
        };
        let mut bars: Vec<Kline> = Vec::new();
        let mut i = first;
        while i < n
            invariant
                first <= i <= n,
                n == self.history@.len(),
                bar_views(bars@) =~= bar_views(self.history@).subrange(first as int, i as int),
            decreases n - i,
        {
            let bar = self.history[i].clone();
            let ghost copied = bars@;
            bars.push(bar);
            assert(bar_views(bars@) =~= bar_views(copied).push(self.history@[i as int]@));
            i = i + 1;
        }
        assert(bar_views(bars@) =~= self@.closed(wanted as nat));
        match &self.current {
            Some(bar) => {
                let ghost closed = bars@;
                bars.push(bar.clone());
                assert(bar_views(bars@) =~= bar_views(closed) + seq![bar@]);
            },
            None => {
                assert(bar_views(bars@) =~= bar_views(bars@) + Seq::<KlineView>::empty());
            },
        }
        bars
    }

    /// Number of closed bars that the series holds.
    pub fn closed_len(&self) -> (n: usize)
        ensures
            n == self@.history.len(),
    {
        self.history.len()
    }
}

/// Closing a bar keeps the history within capacity, puts the bar last, and
/// where the history was full, drops exactly the oldest bar.
pub proof fn lemma_seal_evicts_oldest(history: Seq<KlineView>, bar: KlineView)
    requires
        history.len() <= HISTORY_CAPACITY,
    ensures
        SeriesView::seal(history, bar).len() <= HISTORY_CAPACITY,
        SeriesView::seal(history, bar).last() == bar,
        history.len() < HISTORY_CAPACITY ==> SeriesView::seal(history, bar) == history.push(bar),
        history.len() == HISTORY_CAPACITY ==> SeriesView::seal(history, bar)
            == history.drop_first().push(bar),
{
    if history.len() == HISTORY_CAPACITY {
        assert(SeriesView::seal(history, bar) =~= history.drop_first().push(bar));
    }
}

/// A valid trade keeps the invariant of the series: the history stays
/// within capacity however many trades come.
pub proof fn lemma_step_keeps_wf(
    series: SeriesView,
    symbol: Seq<char>,
    interval: Interval,
    tick: Tick,
)
    requires
        series.wf(symbol, interval),
        tick_is_valid(tick, interval),
    ensures
        series.step(symbol, interval, tick).wf(symbol, interval),
        series.step(symbol, interval, tick).continues(window_start(tick.time, interval)),
{
    let start = window_start(tick.time, interval);
    lemma_window_start_bounds(tick.time, interval);
    if series.refusal(start, tick.price, tick.quantity) is None {
        let after = series.ingest(symbol, interval, start, tick.price, tick.quantity);
        match series.current {
            Some(bar) => {
                if bar.timestamp != start {
                    lemma_seal_evicts_oldest(series.history, bar);
                    assert forall|i: int| 0 <= i < after.history.len() implies bar_belongs(
                        #[trigger] after.history[i],
                        symbol,
                        interval,
                    ) by {
                        if series.history.len() == HISTORY_CAPACITY {
                            if i < after.history.len() - 1 {
                                assert(after.history[i] == series.history[i + 1]);
                            }
                        } else {
                            if i < after.history.len() - 1 {
                                assert(after.history[i] == series.history[i]);
                            }
                        }
                    }
                }
            },
            None => {},
        }
    }
}

/// After any run of valid trades on a series that has seen none, the
/// invariant holds: in particular the history never exceeds
/// `HISTORY_CAPACITY`, and once a trade has come, the open bar is the one of
/// the window of the last trade.
pub proof fn lemma_run_keeps_wf(symbol: Seq<char>, interval: Interval, ticks: Seq<Tick>)
    requires
        forall|i: int| 0 <= i < ticks.len() ==> tick_is_valid(#[trigger] ticks[i], interval),
    ensures
        SeriesView::empty().run(symbol, interval, ticks).wf(symbol, interval),
        SeriesView::empty().run(symbol, interval, ticks).history.len() <= HISTORY_CAPACITY,
        ticks.len() > 0 ==> SeriesView::empty().run(symbol, interval, ticks).continues(
            window_start(ticks.last().time, interval),
        ),
    decreases ticks.len(),
{
    if ticks.len() > 0 {
        lemma_run_keeps_wf(symbol, interval, ticks.drop_last());
        let before = SeriesView::empty().run(symbol, interval, ticks.drop_last());
        lemma_step_keeps_wf(before, symbol, interval, ticks.last());
    }
}

/// A query never returns more closed bars than its effective limit, which
/// is at most `MAX_LIMIT`, and at most one open bar after them. The closed
/// bars are the most recent ones in the order of the history; in a
/// chronological series their windows strictly increase, so no window
/// occurs twice, and all of them lie before the open bar's window.
pub proof fn lemma_query_shape(series: SeriesView, limit: Option<usize>)
    ensures
        ({
            let wanted = effective_limit(limit);
            let closed = series.closed(wanted);
            let answer = series.query(limit);
            &&& 0 < wanted <= MAX_LIMIT
            &&& closed.len() <= wanted
            &&& closed.len() <= series.history.len()
            &&& answer.len() == closed.len() + series.open_bar().len()
            &&& series.open_bar().len() <= 1
            &&& forall|i: int|
                0 <= i < closed.len() ==> #[trigger] answer[i] == series.history[series.history.len()
                    - closed.len() + i]
            &&& series.current matches Some(bar) ==> answer.last() == bar
            &&& series.chronological() ==> forall|i: int, j: int|
                0 <= i < j < answer.len() ==> (#[trigger] answer[i]).timestamp
                    < (#[trigger] answer[j]).timestamp
        }),
{
    let wanted = effective_limit(limit);
    let closed = series.closed(wanted);
    let answer = series.query(limit);
    let skipped = series.history.len() - closed.len();
    assert forall|i: int| 0 <= i < closed.len() implies #[trigger] answer[i] == series.history[skipped
        + i] by {
        assert(answer[i] == closed[i]);
    }
    if series.chronological() {
        assert forall|i: int, j: int| 0 <= i < j < answer.len() implies (#[trigger] answer[i]).timestamp
            < (#[trigger] answer[j]).timestamp by {
            assert(answer[i] == series.history[skipped + i]);
            if j < closed.len() {
                assert(answer[j] == series.history[skipped + j]);
            } else {
                assert(answer[j] == series.current.unwrap());
            }
        }
    }
}

/// A valid trade that is not older than the open bar's window keeps a
/// chronological series chronological.
pub proof fn lemma_step_keeps_order(
    series: SeriesView,
    symbol: Seq<char>,
    interval: Interval,
    tick: Tick,
)
    requires
        series.wf(symbol, interval),
        series.chronological(),
        series.current matches Some(bar) ==> bar.timestamp <= window_start(tick.time, interval),
    ensures
        series.step(symbol, interval, tick).chronological(),
{
    let start = window_start(tick.time, interval);
    let after = series.step(symbol, interval, tick);
    if series.refusal(start, tick.price, tick.quantity) is None {
        match series.current {
            Some(bar) => {
                if bar.timestamp == start {
                    assert(after.current.unwrap().timestamp == bar.timestamp);
                    assert(after.history == series.history);
                } else {
                    let grown = series.history.push(bar);
                    assert forall|i: int, j: int| 0 <= i < j < grown.len() implies (
                    #[trigger] grown[i]).timestamp < (#[trigger] grown[j]).timestamp by {
                        if j < series.history.len() {
                            assert(grown[i] == series.history[i]);
                            assert(grown[j] == series.history[j]);
                        } else {
                            assert(grown[i] == series.history[i]);
                        }
                    }
                    let shift: int = if grown.len() > HISTORY_CAPACITY {
                        1
                    } else {
                        0
                    };
                    assert forall|i: int| 0 <= i < after.history.len() implies #[trigger] after.history[i]
                        == grown[i + shift] by {}
                    assert forall|i: int, j: int| 0 <= i < j < after.history.len() implies (
                    #[trigger] after.history[i]).timestamp < (#[trigger] after.history[j]).timestamp by {
                        assert(after.history[i] == grown[i + shift]);
                        assert(after.history[j] == grown[j + shift]);
                    }
                    assert forall|i: int| 0 <= i < after.history.len() implies (
                    #[trigger] after.history[i]).timestamp < start by {
                        assert(after.history[i] == grown[i + shift]);
                        if i + shift < series.history.len() {
                            assert(grown[i + shift] == series.history[i + shift]);
                        }
                    }
                }
            },
            None => {},
        }
    }
}

/// Trades that arrive in the order of their times leave a chronological
/// series: no window occurs twice among the closed bars, and none of them
/// is the open bar's window.
pub proof fn lemma_run_in_order_is_chronological(
    symbol: Seq<char>,
    interval: Interval,
    ticks: Seq<Tick>,
)
    requires
        forall|i: int| 0 <= i < ticks.len() ==> tick_is_valid(#[trigger] ticks[i], interval),
        forall|i: int, j: int|
            0 <= i <= j < ticks.len() ==> (#[trigger] ticks[i]).time <= (#[trigger] ticks[j]).time,
    ensures
        SeriesView::empty().run(symbol, interval, ticks).chronological(),
    decreases ticks.len(),
{
    if ticks.len() > 0 {
        let head = ticks.drop_last();
        lemma_run_in_order_is_chronological(symbol, interval, head);
        lemma_run_keeps_wf(symbol, interval, head);
        let before = SeriesView::empty().run(symbol, interval, head);
        if head.len() > 0 {
            assert(head.last() == ticks[ticks.len() - 2]);
            assert(ticks.last() == ticks[ticks.len() - 1]);
            lemma_window_start_monotonic(head.last().time, ticks.last().time, interval);
        }
        lemma_step_keeps_order(before, symbol, interval, ticks.last());
    }
}

/// What the bars read of a run of trades: the price and quantity of each.
pub open spec fn fills_of(ticks: Seq<Tick>) -> Seq<Fill> {
    ticks.map_values(|tick: Tick| Fill { price: tick.price, quantity: tick.quantity })
}

/// No trade is lost on a new series: trades of one window whose quantities
/// together fit in 64 bits all land in one open bar, in whatever order they
/// come, and nothing is closed. That bar is the bar of the window with the
/// trades applied in the order of arrival, so its volume is the sum of their
/// quantities.
pub proof fn lemma_run_within_one_window(
    symbol: Seq<char>,
    interval: Interval,
    start: int,
    ticks: Seq<Tick>,
)
    requires
        ticks.len() > 0,
        forall|i: int| 0 <= i < ticks.len() ==> tick_is_valid(#[trigger] ticks[i], interval),
        forall|i: int|
            0 <= i < ticks.len() ==> window_start((#[trigger] ticks[i]).time, interval) == start,
        total_quantity(fills_of(ticks)) <= u64::MAX,
    ensures
        SeriesView::empty().run(symbol, interval, ticks) == (SeriesView {
            current: Some(KlineView::fresh(start, symbol, interval).apply_all(fills_of(ticks))),
            history: Seq::empty(),
        }),
        KlineView::fresh(start, symbol, interval).apply_all(fills_of(ticks)).volume
            == total_quantity(fills_of(ticks)),
    decreases ticks.len(),
{
    let head = ticks.drop_last();
    let fills = fills_of(ticks);
    let fresh = KlineView::fresh(start, symbol, interval);
    assert(fills.drop_last() =~= fills_of(head));
    assert(fills.last().price == ticks.last().price && fills.last().quantity
        == ticks.last().quantity);
    if head.len() == 0 {
        assert(fresh.apply_all(fills_of(head)) == fresh);
        assert(total_quantity(fills_of(head)) == 0);
        assert(SeriesView::empty().run(symbol, interval, head) == SeriesView::empty());
    } else {
        assert forall|i: int| 0 <= i < head.len() implies tick_is_valid(
            #[trigger] head[i],
            interval,
        ) && window_start(head[i].time, interval) == start by {
            assert(head[i] == ticks[i]);
        }
        lemma_run_within_one_window(symbol, interval, start, head);
    }
}

} // verus!

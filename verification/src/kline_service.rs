//! The store of all bars: one book of five series for every symbol that has
//! traded.

use dashmap::DashMap;
use vstd::prelude::*;
use crate::book::{BookView, SymbolBook};
use crate::interval::{interval_of_label, Interval, IntervalError, INTERVAL_COUNT};
use crate::kline::{bar_views, Kline, TradeError};
use crate::series::{effective_limit, lemma_query_shape, SeriesView, HISTORY_CAPACITY, MAX_LIMIT};
use crate::transaction::Transaction;

verus! {

/// What a map of books holds: the value of the book of each symbol that has
/// one.
pub uninterp spec fn book_entries(books: DashMap<String, SymbolBook>) -> Map<Seq<char>, BookView>;

/// The store in which no symbol has a book.
pub open spec fn empty_store() -> Map<Seq<char>, BookView> {
    Map::empty()
}

/// `DashMap::new`: a map that holds nothing.
#[verifier::external_body]
fn books_new() -> (books: DashMap<String, SymbolBook>)
    ensures
        book_entries(books) == empty_store(),
{
    DashMap::new()
}

/// `DashMap::remove`: takes the entry of `symbol` out of the map and hands
/// its value over, if there is one; no other entry changes.
#[verifier::external_body]
fn books_take(books: &mut DashMap<String, SymbolBook>, symbol: &str) -> (taken: Option<SymbolBook>)
    ensures
        book_entries(*final(books)) == book_entries(*old(books)).remove(symbol@),
        match taken {
            Some(book) => book_entries(*old(books)).contains_key(symbol@) && book@ == book_entries(
                *old(books),
            )[symbol@],
            None => !book_entries(*old(books)).contains_key(symbol@),
        },
{
    books.remove(symbol).map(|entry| entry.1)
}

/// `DashMap::insert`: puts `book` under `symbol`, in place of the value that
/// was there, if any; no other entry changes.
#[verifier::external_body]
fn books_put(books: &mut DashMap<String, SymbolBook>, symbol: String, book: SymbolBook)
    ensures
        book_entries(*final(books)) == book_entries(*old(books)).insert(symbol@, book@),
{
    books.insert(symbol, book);
}

/// `DashMap::view`: runs the closure on the value under `symbol` and hands
/// back what the closure returned, or `None` where the symbol has no entry.
/// The closure is one call of `SymbolBook::get_klines`, whose own contract
/// says what the bars are; the map must hold a book that meets the demand
/// of that call.
#[verifier::external_body]
fn books_read(
    books: &DashMap<String, SymbolBook>,
    symbol: &str,
    interval: Interval,
    limit: Option<usize>,
) -> (found: Option<Vec<Kline>>)
    requires
        book_entries(*books).contains_key(symbol@) ==> book_entries(*books)[symbol@].series.len()
            == INTERVAL_COUNT,
    ensures
        match found {
            Some(bars) => book_entries(*books).contains_key(symbol@) && bar_views(bars@)
                == book_entries(*books)[symbol@].of(interval).query(limit),
            None => !book_entries(*books).contains_key(symbol@),
        },
{
    books.view(symbol, |_, book| book.get_klines(interval, limit))
}

/// The store of all bars.
pub struct KlineService {
    books: DashMap<String, SymbolBook>,
}

impl View for KlineService {
    type V = Map<Seq<char>, BookView>;

    closed spec fn view(&self) -> Map<Seq<char>, BookView> {
        book_entries(self.books)
    }
}

/// The book of `symbol` in `store`; the empty book where it has none.
pub open spec fn book_of(store: Map<Seq<char>, BookView>, symbol: Seq<char>) -> BookView {
    if store.contains_key(symbol) {
        store[symbol]
    } else {
        BookView::empty()
    }
}

/// The invariant of a store: every book is the well-formed book of the
/// symbol that it stands under.
pub open spec fn store_wf(store: Map<Seq<char>, BookView>) -> bool {
    forall|symbol: Seq<char>| store.contains_key(symbol) ==> (#[trigger] store[symbol]).wf(symbol)
}

/// The series of `symbol` and `interval` in `store`; the empty series where
/// the symbol has not traded.
pub open spec fn series_of(
    store: Map<Seq<char>, BookView>,
    symbol: Seq<char>,
    interval: Interval,
) -> SeriesView {
    book_of(store, symbol).of(interval)
}

/// Whatever symbol and interval are asked for, a well-formed store holds at
/// most `HISTORY_CAPACITY` closed bars for them, and a query returns at most
/// as many closed bars as its effective limit, which never exceeds
/// `MAX_LIMIT`, and after them at most one open bar.
pub proof fn lemma_store_is_bounded(
    store: Map<Seq<char>, BookView>,
    symbol: Seq<char>,
    interval: Interval,
    limit: Option<usize>,
)
    requires
        store_wf(store),
    ensures
        series_of(store, symbol, interval).wf(symbol, interval),
        series_of(store, symbol, interval).history.len() <= HISTORY_CAPACITY,
        series_of(store, symbol, interval).closed(effective_limit(limit)).len() <= effective_limit(
            limit,
        ) <= MAX_LIMIT,
        series_of(store, symbol, interval).query(limit).len() <= effective_limit(limit) + 1,
{
    let book = book_of(store, symbol);
    assert(book.wf(symbol));
    assert(Interval::at(interval.ordinal()) == interval);
    assert(book.series[interval.ordinal()].wf(symbol, interval));
    lemma_query_shape(series_of(store, symbol, interval), limit);
}

impl KlineService {
    /// The invariant of the store. Every store has it: `new` makes it true
    /// and no method breaks it.
    pub open spec fn wf(&self) -> bool {
        store_wf(self@)
    }

    /// The series of `symbol` and `interval`; the empty series where the
    /// symbol has not traded.
    pub open spec fn series(&self, symbol: Seq<char>, interval: Interval) -> SeriesView {
        series_of(self@, symbol, interval)
    }

    /// A store without bars.
    pub fn new() -> (service: KlineService)
        ensures
            service@ == empty_store(),
            service.wf(),
    {
        KlineService { books: books_new() }
    }

    /// Takes one trade into the five series of its symbol, or into none.
    ///
    /// The trade is refused, and the store left as it was, where its price
    /// or quantity is zero, where the hour that holds it starts before the
    /// earliest representable second, or where the volume of a bar would
    /// pass `u64::MAX`. No other symbol's bars change in either case.
    pub fn update_with_transaction(&mut self, transaction: &Transaction) -> (r: Result<
        (),
        TradeError,
    >)
        requires
            old(self).wf(),
        ensures
            final(self).wf(),
            r == (match book_of(old(self)@, transaction.symbol@).refusal(
                transaction.timestamp as int,
                transaction.price as nat,
                transaction.amount as nat,
            ) {
                Some(e) => Err(e),
                None => Ok(()),
            }),
            r.is_ok() ==> final(self)@ == old(self)@.insert(
                transaction.symbol@,
                book_of(old(self)@, transaction.symbol@).ingest(
                    transaction.symbol@,
                    transaction.timestamp as int,
                    transaction.price as nat,
                    transaction.amount as nat,
                ),
            ),
            r.is_err() ==> final(self)@ == old(self)@,
    {
        let taken = books_take(&mut self.books, transaction.symbol.as_str());
        let known = taken.is_some();
        let mut book = match taken {
            Some(book) => book,
            None => SymbolBook::new(),
        };
        let applied = book.ingest(transaction);
        if known || applied.is_ok() {
            books_put(&mut self.books, transaction.symbol.clone(), book);
        }
        assert(applied.is_err() ==> self@ =~= old(self)@);
        applied
    }

    /// The bars of `symbol` at the interval labelled `interval`: the most
    /// recent closed bars, oldest first, as many as `limit` asks for, and
    /// after them the open bar. A symbol that has not traded has no bars.
    ///
    /// A label that names none of the five intervals is an error.
    pub fn get_klines(&self, symbol: &str, interval: &str, limit: Option<usize>) -> (r: Result<
        Vec<Kline>,
        IntervalError,
    >)
        requires
            self.wf(),
        ensures
            match interval_of_label(interval@) {
                None => r == Err::<Vec<Kline>, IntervalError>(IntervalError::UnknownInterval),
                Some(i) => r.is_ok() && bar_views(r.unwrap()@) == self.series(symbol@, i).query(limit),
            },
    {
        match Interval::parse(interval) {
            None => Err(IntervalError::UnknownInterval),
            Some(i) => Ok(self.get_klines_of(symbol, i, limit)),
        }
    }

    /// The bars of `symbol` at `interval`: the most recent closed bars,
    /// oldest first, as many as `limit` asks for, and after them the open
    /// bar. A symbol that has not traded has no bars.
    pub fn get_klines_of(&self, symbol: &str, interval: Interval, limit: Option<usize>) -> (bars: Vec<
        Kline,
    >)
        requires
            self.wf(),
        ensures
            bar_views(bars@) == self.series(symbol@, interval).query(limit),
    {
        match books_read(&self.books, symbol, interval, limit) {
            Some(bars) => bars,
            None => {
                let bars: Vec<Kline> = Vec::new();
                assert(bar_views(bars@) =~= SeriesView::empty().query(limit));
                bars
            },
        }
    }
}

} // verus!

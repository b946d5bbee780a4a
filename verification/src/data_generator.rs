//! A synthetic source of trades: random trades of a few symbols around a
//! base price each.

use vstd::prelude::*;
use crate::sources::{random_below, random_id, wall_clock};
use crate::transaction::{Side, Transaction};

verus! {

/// Greatest distance of a generated price from the base price, in parts
/// per million of the base price.
pub const MAX_VARIATION_PPM: i64 = 50_000;

/// Least quantity of a generated trade, in lots.
pub const MIN_AMOUNT: u64 = 100_000;

/// The bound below which the quantities of generated trades stay, in lots.
pub const MAX_AMOUNT: u64 = 10_000_000;

/// Greatest base price that an instrument may have, in ticks.
pub const MAX_BASE_PRICE: u64 = 9_000_000_000_000_000_000;

/// A symbol and the price around which its generated trades lie.
#[derive(Debug, PartialEq, Eq)]
pub struct Instrument {
    pub symbol: String,
    /// Base price in ticks.
    pub base_price: u64,
}

/// The base price moved by `variation` parts per million, rounded down.
pub open spec fn varied_price(base: nat, variation: int) -> int {
    base * (1_000_000 + variation) / 1_000_000
}

/// `trade` is a trade that a generator over `instruments` can make: it
/// names one of the instruments, its price is that instrument's base price
/// moved by less than the greatest variation, and its quantity lies between
/// the two bounds.
pub open spec fn generated_from(instruments: Seq<Instrument>, trade: Transaction) -> bool {
    &&& exists|i: int, variation: int|
        0 <= i < instruments.len() && -MAX_VARIATION_PPM <= variation < MAX_VARIATION_PPM
            && trade.symbol == (#[trigger] instruments[i]).symbol && trade.price == #[trigger] varied_price(
            instruments[i].base_price as nat,
            variation,
        )
    &&& MIN_AMOUNT <= trade.amount < MAX_AMOUNT
}

/// The source of synthetic trades.
pub struct DataGenerator {
    instruments: Vec<Instrument>,
}

impl View for DataGenerator {
    type V = Seq<Instrument>;

    closed spec fn view(&self) -> Seq<Instrument> {
        self.instruments@
    }
}

impl DataGenerator {
    /// The invariant of a generator: it has an instrument, and every base
    /// price is large enough to stay positive and small enough to stay in
    /// range under the greatest variation.
    pub open spec fn wf(&self) -> bool {
        &&& 0 < self@.len()
        &&& forall|i: int| 0 <= i < self@.len() ==> 2 <= (#[trigger] self@[i]).base_price <= MAX_BASE_PRICE
    }

    #[verifier::type_invariant]
    spec fn holds_invariant(self) -> bool {
        self.wf()
    }

    /// The generator of the four symbols `PEPE`, `DOGE`, `SHIB` and
    /// `FLOKI`.
    pub fn new() -> (generator: DataGenerator)
        ensures
            generator.wf(),
            generator@.len() == 4,
            generator@[0].symbol@ == "PEPE"@ && generator@[0].base_price == 1_234_000,
            generator@[1].symbol@ == "DOGE"@ && generator@[1].base_price == 82_300_000_000,
            generator@[2].symbol@ == "SHIB"@ && generator@[2].base_price == 8_456_000,
            generator@[3].symbol@ == "FLOKI"@ && generator@[3].base_price == 123_450_000,
    {
        let mut instruments: Vec<Instrument> = Vec::new();
        instruments.push(Instrument { symbol: "PEPE".to_owned(), base_price: 1_234_000 });
        instruments.push(Instrument { symbol: "DOGE".to_owned(), base_price: 82_300_000_000 });
        instruments.push(Instrument { symbol: "SHIB".to_owned(), base_price: 8_456_000 });
        instruments.push(Instrument { symbol: "FLOKI".to_owned(), base_price: 123_450_000 });
        DataGenerator { instruments }
    }

    /// Number of instruments.
    pub fn instrument_count(&self) -> (n: usize)
        ensures
            n == self@.len(),
            n > 0,
    {
        proof {
            use_type_invariant(self);
        }
        self.instruments.len()
    }

    /// The trade of instrument `pick` at its base price moved by
    /// `variation` parts per million, with the given quantity, side,
    /// identifier and instant; `None` where there is no instrument `pick` or
    /// the variation is beyond the greatest one.
    pub fn trade_from(
        &self,
        pick: usize,
        variation: i64,
        amount: u64,
        buy: bool,
        id: String,
        timestamp: i64,
        timestamp_nanos: u32,
    ) -> (made: Option<Transaction>)
        ensures
            self.wf(),
            made.is_some() == (pick < self@.len() && -MAX_VARIATION_PPM <= variation
                < MAX_VARIATION_PPM),
            made matches Some(trade) ==> trade == (Transaction {
                id,
                symbol: self@[pick as int].symbol,
                price: varied_price(self@[pick as int].base_price as nat, variation as int) as u64,
                amount,
                side: if buy {
                    Side::Buy
                } else {
                    Side::Sell
                },
                timestamp,
                timestamp_nanos,
            }) && 0 < varied_price(self@[pick as int].base_price as nat, variation as int)
                <= u64::MAX,
    {
        proof {
            use_type_invariant(self);
        }
        if pick >= self.instruments.len() || variation < -MAX_VARIATION_PPM || variation
            >= MAX_VARIATION_PPM {
            return None;
        }
        let instrument = &self.instruments[pick];
        let base = instrument.base_price;
        let factor: u64 = (1_000_000 + variation) as u64;
        assert(2 * 950_000 <= base * factor <= MAX_BASE_PRICE * 1_050_000) by (nonlinear_arith)
            requires
                2 <= base <= MAX_BASE_PRICE,
                950_000 <= factor <= 1_050_000,
        ;
        let price = ((base as u128) * (factor as u128) / 1_000_000) as u64;
        let side = if buy {
            Side::Buy
        } else {
            Side::Sell
        };
        Some(
            Transaction::stamped(
                id,
                instrument.symbol.clone(),
                price,
                amount,
                side,
                timestamp,
                timestamp_nanos,
            ),
        )
    }

    /// A random trade that happened now: a random instrument, a price
    /// within the greatest variation of its base price, a quantity between
    /// the two bounds and a random side.
    ///
    /// Which trade comes out differs from call to call; every one of them
    /// has a positive price and quantity and an instant that is not before
    /// the epoch.
    pub fn next_transaction(&self) -> (trade: Transaction)
        ensures
            self.wf(),
            generated_from(self@, trade),
            trade.price > 0,
            trade.timestamp >= 0,
    {
        proof {
            use_type_invariant(self);
        }
        let pick = random_below(self.instruments.len() as u64) as usize;
        let variation = random_below(100_000) as i64 - MAX_VARIATION_PPM;
        let amount = MIN_AMOUNT + random_below(MAX_AMOUNT - MIN_AMOUNT);
        let buy = random_below(2) == 0;
        let id = random_id();
        let now = wall_clock();
        let trade = self.trade_from(pick, variation, amount, buy, id, now.0, now.1).unwrap();
        assert(trade.symbol == self@[pick as int].symbol && trade.price == varied_price(
            self@[pick as int].base_price as nat,
            variation as int,
        ));
        trade
    }
}

} // verus!

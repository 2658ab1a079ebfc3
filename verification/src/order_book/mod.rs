//! The internal order book and the snapshots that it publishes.
pub mod book;
pub mod delta;
pub mod laws;
pub mod outcome_laws;
pub mod ranking;
pub mod side_laws;
pub mod task;
pub mod validation;
pub mod validation_laws;

pub use crate::order_book::book::{
    BookError, BookFault, BookModel, BookState, BookUpdate, Condition, OrderBook, RawBookUpdate,
    SequenceCheck, UpdateModel,
};
pub use crate::order_book::task::Publication;

use crate::clock::{
    duration_nanos, is_clock_reading, is_measured_age, is_older, is_staleness, max_duration_nanos,
};
use crate::order_book::ranking::{is_ranked, keep_positive, law_positive_keeps_rank, positive, rank, ranked};
use crate::order_book::validation::crossed;
use crate::types::{in_i64, Price, Quantity, Side, Symbol};
use std::time::{Duration, Instant};
use vstd::prelude::*;
use vstd::slice::slice_subrange;

verus! {

/// A single price level in the order book.
#[derive(Debug, Clone, Copy, PartialEq, Eq, Structural)]
pub struct PriceLevel {
    pub price: Price,
    pub quantity: Quantity,
}

/// A snapshot of the full order book. As `new` builds it, bids run from the highest price
/// down and asks from the lowest price up, so the best level of each side is the first.
#[derive(Debug, Clone)]
pub struct BookSnapshot {
    pub bids: Vec<PriceLevel>,
    pub asks: Vec<PriceLevel>,
    pub instrument: Symbol,
    pub sequence: u64,
    pub timestamp: Instant,
}

/// What a snapshot says of the market, without the time at which it was taken.
#[verifier::ext_equal]
pub struct SnapshotModel {
    pub bids: Seq<PriceLevel>,
    pub asks: Seq<PriceLevel>,
    pub instrument: Seq<char>,
    pub sequence: u64,
}

impl View for BookSnapshot {
    type V = SnapshotModel;

    open spec fn view(&self) -> SnapshotModel {
        SnapshotModel {
            bids: self.bids@,
            asks: self.asks@,
            instrument: self.instrument@,
            sequence: self.sequence,
        }
    }
}

/// The levels of one side as they are published: ranked, with positive quantities only.
pub open spec fn published(side: Side, levels: Seq<PriceLevel>) -> Seq<PriceLevel> {
    positive(ranked(side, levels))
}

/// Every level has a positive quantity.
pub open spec fn all_positive(levels: Seq<PriceLevel>) -> bool {
    forall|i: int| 0 <= i < levels.len() ==> (#[trigger] levels[i]).quantity > 0
}

/// The price of the first level.
pub open spec fn best(levels: Seq<PriceLevel>) -> Option<Price> {
    if levels.len() > 0 {
        Some(levels[0].price)
    } else {
        None
    }
}

/// Half of `x`, rounded towards zero.
pub open spec fn half(x: int) -> int {
    if x >= 0 {
        x / 2
    } else {
        -((-x) / 2)
    }
}

/// The price halfway between the best prices, rounded towards zero.
pub open spec fn mid_price(bids: Seq<PriceLevel>, asks: Seq<PriceLevel>) -> Option<Price> {
    match (best(bids), best(asks)) {
        (Some(bid), Some(ask)) => Some(half(bid + ask) as Price),
        _ => None,
    }
}

/// The best prices have a sum that an `i64` can hold.
pub open spec fn mid_fits(bids: Seq<PriceLevel>, asks: Seq<PriceLevel>) -> bool {
    match (best(bids), best(asks)) {
        (Some(bid), Some(ask)) => in_i64(bid + ask),
        _ => true,
    }
}

/// The best prices have a difference that an `i64` can hold.
pub open spec fn spread_fits(bids: Seq<PriceLevel>, asks: Seq<PriceLevel>) -> bool {
    match (best(bids), best(asks)) {
        (Some(bid), Some(ask)) => in_i64(ask - bid),
        _ => true,
    }
}

/// The first `n` levels, or all of them where there are fewer.
pub open spec fn top(levels: Seq<PriceLevel>, n: nat) -> Seq<PriceLevel> {
    if n < levels.len() {
        levels.take(n as int)
    } else {
        levels
    }
}

impl BookSnapshot {
    /// Builds a snapshot from levels in any order, and stamps it with the present time. Levels
    /// without a positive quantity are dropped.
    pub fn new(
        bids: Vec<PriceLevel>,
        asks: Vec<PriceLevel>,
        instrument: Symbol,
        sequence: u64,
    ) -> (snapshot: Self)
        ensures
            snapshot.bids@ == published(Side::Buy, bids@),
            snapshot.asks@ == published(Side::Sell, asks@),
            snapshot.instrument == instrument,
            snapshot.sequence == sequence,
            is_clock_reading(snapshot.timestamp),
            call_ensures(Instant::now, (), snapshot.timestamp),
            is_ranked(Side::Buy, snapshot.bids@),
            is_ranked(Side::Sell, snapshot.asks@),
            all_positive(snapshot.bids@),
            all_positive(snapshot.asks@),
    {
        let all_bids = rank(Side::Buy, &bids);
        let all_asks = rank(Side::Sell, &asks);
        proof {
            law_positive_keeps_rank(Side::Buy, all_bids@);
            law_positive_keeps_rank(Side::Sell, all_asks@);
        }
        let timestamp = Instant::now();
        assert(is_clock_reading(timestamp));
        BookSnapshot {
            bids: keep_positive(&all_bids),
            asks: keep_positive(&all_asks),
            instrument,
            sequence,
            timestamp,
        }
    }

    /// Best bid price.
    pub fn best_bid(&self) -> (price: Option<Price>)
        ensures
            price == best(self.bids@),
    {
        if self.bids.len() > 0 {
            Some(self.bids[0].price)
        } else {
            None
        }
    }

    /// Best ask price.
    pub fn best_ask(&self) -> (price: Option<Price>)
        ensures
            price == best(self.asks@),
    {
        if self.asks.len() > 0 {
            Some(self.asks[0].price)
        } else {
            None
        }
    }

    /// Mid price, rounded towards zero. Use the sum of the best prices where full precision
    /// matters.
    pub fn mid(&self) -> (price: Option<Price>)
        requires
            mid_fits(self.bids@, self.asks@),
        ensures
            price == mid_price(self.bids@, self.asks@),
    {
        match (self.best_bid(), self.best_ask()) {
            (Some(bid), Some(ask)) => Some((bid + ask) / 2),
            _ => None,
        }
    }

    /// Spread in raw price units.
    pub fn spread(&self) -> (price: Option<Price>)
        requires
            spread_fits(self.bids@, self.asks@),
        ensures
            price == (match (best(self.bids@), best(self.asks@)) {
                (Some(bid), Some(ask)) => Some((ask - bid) as Price),
                _ => None,
            }),
    {
        match (self.best_bid(), self.best_ask()) {
            (Some(bid), Some(ask)) => Some(ask - bid),
            _ => None,
        }
    }

    /// Top `n` levels of each side, or fewer where the book is shallow.
    pub fn depth(&self, n: usize) -> (levels: (&[PriceLevel], &[PriceLevel]))
        ensures
            levels.0@ == top(self.bids@, n as nat),
            levels.1@ == top(self.asks@, n as nat),
    {
        let bid_depth: usize = if n < self.bids.len() {
            n
        } else {
            self.bids.len()
        };
        let ask_depth: usize = if n < self.asks.len() {
            n
        } else {
            self.asks.len()
        };
        let bids = slice_subrange(self.bids.as_slice(), 0, bid_depth);
        let asks = slice_subrange(self.asks.as_slice(), 0, ask_depth);
        assert(bids@ =~= top(self.bids@, n as nat));
        assert(asks@ =~= top(self.asks@, n as nat));
        (bids, asks)
    }

    /// True if the best bid is not below the best ask: the book is corrupt.
    pub fn is_crossed(&self) -> (yes: bool)
        ensures
            yes == crossed(self.bids@, self.asks@),
    {
        match (self.best_bid(), self.best_ask()) {
            (Some(bid), Some(ask)) => bid >= ask,
            _ => false,
        }
    }

    /// True if the snapshot was taken longer ago than `threshold`, by the clock at the time of
    /// the call.
    pub fn is_stale(&self, threshold: Duration) -> (stale: bool)
        ensures
            is_staleness(stale, self.timestamp, threshold),
            exists|age: Duration| #[trigger]
                call_ensures(Instant::elapsed, (&self.timestamp,), age) && stale == (duration_nanos(
                    age,
                ) > duration_nanos(threshold)),
            duration_nanos(threshold) == max_duration_nanos() ==> !stale,
    {
        let age = self.timestamp.elapsed();
        assert(is_measured_age(self.timestamp, age));
        is_older(age, threshold)
    }
}

} // verus!

//! What a consumer of snapshots reports of each of them.
use crate::order_book::{best, mid_fits, mid_price, spread_fits, top, BookSnapshot};
use crate::types::Price;
use vstd::prelude::*;

verus! {

/// Levels of each side that a summary looks at.
pub const SUMMARY_DEPTH: usize = 3;

/// Number of snapshots between two reports of the throughput.
pub const THROUGHPUT_INTERVAL: u64 = 10;

/// The figures of one snapshot.
#[derive(Debug, Clone)]
pub struct SnapshotSummary {
    /// How many snapshots have been seen, this one included.
    pub number: u64,
    pub sequence: u64,
    pub bid: Option<Price>,
    pub ask: Option<Price>,
    pub mid: Option<Price>,
    pub spread: Option<Price>,
    pub bid_levels: usize,
    pub ask_levels: usize,
    /// The throughput is to be reported along with this snapshot.
    pub throughput_due: bool,
}

/// Counts the snapshots that a consumer has seen.
pub struct SnapshotCounter {
    count: u64,
}

impl View for SnapshotCounter {
    type V = u64;

    closed spec fn view(&self) -> u64 {
        self.count
    }
}

/// A snapshot can be counted, and its figures are within range.
pub open spec fn summary_fits(count: u64, snapshot: BookSnapshot) -> bool {
    &&& count < u64::MAX
    &&& mid_fits(snapshot.bids@, snapshot.asks@)
    &&& spread_fits(snapshot.bids@, snapshot.asks@)
}

/// A snapshot can be summarised exactly when there is a number left for it and an `i64` can
/// hold the sum and the difference of its best prices.
pub proof fn law_summary_fits(count: u64, snapshot: BookSnapshot)
    ensures
        summary_fits(count, snapshot) <==> {
            &&& count < u64::MAX
            &&& snapshot.bids@.len() > 0 && snapshot.asks@.len() > 0 ==> {
                &&& i64::MIN <= snapshot.bids@[0].price + snapshot.asks@[0].price <= i64::MAX
                &&& i64::MIN <= snapshot.asks@[0].price - snapshot.bids@[0].price <= i64::MAX
            }
        },
{
}

impl SnapshotCounter {
    pub fn new() -> (counter: Self)
        ensures
            counter@ == 0,
    {
        SnapshotCounter { count: 0 }
    }

    /// How many snapshots have been seen.
    pub fn count(&self) -> (count: u64)
        ensures
            count == self@,
    {
        self.count
    }

    /// Says whether `summarize` can be called.
    pub fn can_summarize(&self, snapshot: &BookSnapshot) -> (fits: bool)
        ensures
            fits == summary_fits(self@, *snapshot),
    {
        if self.count == u64::MAX {
            return false;
        }
        match (snapshot.best_bid(), snapshot.best_ask()) {
            (Some(bid), Some(ask)) => bid.checked_add(ask).is_some()
                && ask.checked_sub(bid).is_some(),
            _ => true,
        }
    }

    /// Counts a snapshot and gives its figures.
    pub fn summarize(&mut self, snapshot: &BookSnapshot) -> (summary: SnapshotSummary)
        requires
            summary_fits(old(self)@, *snapshot),
        ensures
            final(self)@ == old(self)@ + 1,
            summary == (SnapshotSummary {
                number: (old(self)@ + 1) as u64,
                sequence: snapshot.sequence,
                bid: best(snapshot.bids@),
                ask: best(snapshot.asks@),
                mid: mid_price(snapshot.bids@, snapshot.asks@),
                spread: match (best(snapshot.bids@), best(snapshot.asks@)) {
                    (Some(bid), Some(ask)) => Some((ask - bid) as Price),
                    _ => None,
                },
                bid_levels: top(snapshot.bids@, SUMMARY_DEPTH as nat).len() as usize,
                ask_levels: top(snapshot.asks@, SUMMARY_DEPTH as nat).len() as usize,
                throughput_due: (old(self)@ + 1) % (THROUGHPUT_INTERVAL as int) == 0,
            }),
            summary.throughput_due <==> (old(self)@ + 1) % 10 == 0,
            summary.bid_levels <= 3,
            summary.ask_levels <= 3,
    {
        self.count += 1;
        let (bids, asks) = snapshot.depth(SUMMARY_DEPTH);
        SnapshotSummary {
            number: self.count,
            sequence: snapshot.sequence,
            bid: snapshot.best_bid(),
            ask: snapshot.best_ask(),
            mid: snapshot.mid(),
            spread: snapshot.spread(),
            bid_levels: bids.len(),
            ask_levels: asks.len(),
            throughput_due: self.count % THROUGHPUT_INTERVAL == 0,
        }
    }
}

} // verus!

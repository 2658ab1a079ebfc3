//! What the order book task does with each update that a feed sends it.
use crate::clock::is_clock_reading;
use crate::order_book::book::{
    law_update_keeps_book_well_formed, BookError, BookFault, BookModel, OrderBook, RawBookUpdate, UpdateModel,
};
use crate::order_book::delta::with_changes;
use crate::order_book::ranking::{
    law_positive_keeps_rank, law_ranked_is_ranked, law_ranking_is_idempotent, positive, ranked,
};
use crate::order_book::{BookSnapshot, SnapshotModel};
use crate::types::Side;
use vstd::prelude::*;

verus! {

/// What becomes of the published snapshot.
pub enum Publication {
    /// Publish this snapshot.
    Snapshot(BookSnapshot),
    /// Leave the published snapshot as it is.
    Unchanged,
    /// Publish that there is no valid book, because of this error.
    Withdrawn(BookError),
}

/// What the readers of the published snapshot see after an answer of the book.
pub open spec fn seen_after(
    seen: Option<SnapshotModel>,
    answer: Result<Option<SnapshotModel>, BookFault>,
) -> Option<SnapshotModel> {
    match answer {
        Ok(Some(snapshot)) => Some(snapshot),
        Ok(None) => seen,
        Err(_) => None,
    }
}

impl BookModel {
    /// The snapshot of a valid book; an invalid one has none.
    pub open spec fn current(self) -> Option<SnapshotModel> {
        if self.is_valid() {
            Some(
                SnapshotModel {
                    bids: positive(self.bids),
                    asks: positive(self.asks),
                    instrument: self.instrument,
                    sequence: self.last_seq,
                },
            )
        } else {
            None
        }
    }

    /// The book after a run of updates, first to last.
    pub open spec fn after_all(self, updates: Seq<(UpdateModel, u64)>) -> BookModel
        decreases updates.len(),
    {
        if updates.len() == 0 {
            self
        } else {
            self.after_all(updates.drop_last()).after(updates.last().0, updates.last().1)
        }
    }

    /// What readers see after a run of updates, if they saw `seen` before it.
    pub open spec fn seen_after_all(
        self,
        updates: Seq<(UpdateModel, u64)>,
        seen: Option<SnapshotModel>,
    ) -> Option<SnapshotModel>
        decreases updates.len(),
    {
        if updates.len() == 0 {
            seen
        } else {
            let front = updates.drop_last();
            seen_after(
                self.seen_after_all(front, seen),
                self.after_all(front).answer(updates.last().0, updates.last().1),
            )
        }
    }
}

impl OrderBook {
    /// Applies an update and says what to publish.
    pub fn process(&mut self, raw: RawBookUpdate) -> (publication: Publication)
        requires
            old(self)@.admits(raw.update@, raw.seq),
        ensures
            final(self)@ == old(self)@.after(raw.update@, raw.seq),
            old(self)@.well_formed() ==> final(self)@.well_formed(),
            match old(self)@.answer(raw.update@, raw.seq) {
                Ok(Some(model)) => publication matches Publication::Snapshot(snapshot)
                    && snapshot@ == model,
                Ok(None) => publication is Unchanged,
                Err(fault) => publication matches Publication::Withdrawn(error) && error@ == fault,
            },
            publication matches Publication::Snapshot(snapshot) ==> is_clock_reading(
                snapshot.timestamp,
            ),
            publication matches Publication::Snapshot(snapshot) ==> call_ensures(
                std::time::Instant::now,
                (),
                snapshot.timestamp,
            ),
    {
        match self.apply(raw.update, raw.seq) {
            Ok(Some(snapshot)) => Publication::Snapshot(snapshot),
            Ok(None) => Publication::Unchanged,
            Err(error) => Publication::Withdrawn(error),
        }
    }
}

/// Readers who see the current snapshot of the book before an update see that of the updated
/// book after it: a snapshot is out exactly as long as the book is valid, and it is the
/// book's own.
pub proof fn law_readers_see_the_book(book: BookModel, update: UpdateModel, seq: u64)
    requires
        book.well_formed(),
    ensures
        seen_after(book.current(), book.answer(update, seq)) == book.after(update, seq).current(),
{
    if book.takes(update, seq) {
        let bids = book.staged_bids(update);
        let asks = book.staged_asks(update);
        match update {
            UpdateModel::Full { bids, asks } => {
                law_ranked_is_ranked(Side::Buy, bids);
                law_ranked_is_ranked(Side::Sell, asks);
                law_positive_keeps_rank(Side::Buy, ranked(Side::Buy, bids));
                law_positive_keeps_rank(Side::Sell, ranked(Side::Sell, asks));
            },
            UpdateModel::Delta { bid_changes, ask_changes } => {
                law_ranked_is_ranked(Side::Buy, with_changes(book.bids, bid_changes));
                law_ranked_is_ranked(Side::Sell, with_changes(book.asks, ask_changes));
            },
        }
        law_ranking_is_idempotent(Side::Buy, bids);
        law_ranking_is_idempotent(Side::Sell, asks);
    }
}

/// However many updates came, readers of a book that started fresh, with nothing published,
/// see its current snapshot.
pub proof fn law_readers_always_see_the_book(
    instrument: Seq<char>,
    updates: Seq<(UpdateModel, u64)>,
)
    ensures
        BookModel::fresh(instrument).seen_after_all(updates, None) == BookModel::fresh(
            instrument,
        ).after_all(updates).current(),
        BookModel::fresh(instrument).after_all(updates).well_formed(),
    decreases updates.len(),
{
    if updates.len() > 0 {
        let book = BookModel::fresh(instrument).after_all(updates.drop_last());
        let last = updates.last();
        law_readers_always_see_the_book(instrument, updates.drop_last());
        law_readers_see_the_book(book, last.0, last.1);
        law_update_keeps_book_well_formed(book, last.0, last.1);
    }
}

} // verus!

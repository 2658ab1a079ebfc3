//! What holds of the order book across its operations.
use crate::order_book::book::{sequence_check, BookFault, BookModel, UpdateModel};
use crate::order_book::delta::{
    distinct_prices, law_changes_are_local, law_changes_keep_prices_distinct, queue_with_changes,
    with_changes,
};
use crate::order_book::ranking::{
    is_ranked, law_positive_keeps_rank, law_ranked_is_ranked, law_ranked_is_stable, levels_at, positive,
    ranked,
};
use crate::order_book::validation::{rejection, verdict, ValidationConfig, Verdict};
use crate::order_book::{all_positive, best, published, PriceLevel, SnapshotModel};
use crate::types::{Price, Side};
use vstd::prelude::*;

verus! {

/// The first price of ranked levels is the best there is: the highest bid or the lowest ask.
pub proof fn law_first_price_is_best(side: Side, levels: Seq<PriceLevel>, i: int)
    requires
        is_ranked(side, levels),
        0 <= i < levels.len(),
    ensures
        best(levels) is Some,
        match side {
            Side::Buy => best(levels)->0 >= levels[i].price,
            Side::Sell => best(levels)->0 <= levels[i].price,
        },
{
    assert(levels[0] == levels[0]);
}

/// A published side is ranked, all its quantities are positive, and at each price it holds the
/// positive levels that it was given there, in the order in which they came.
pub proof fn law_published_side(side: Side, levels: Seq<PriceLevel>, price: Price)
    ensures
        is_ranked(side, published(side, levels)),
        all_positive(published(side, levels)),
        levels_at(published(side, levels), price) == positive(levels_at(levels, price)),
{
    law_ranked_is_ranked(side, levels);
    law_positive_keeps_rank(side, ranked(side, levels));
    law_ranked_is_stable(side, levels, price);
}

/// What is published is ranked, positive, not empty, not crossed and has the number of its
/// update, and the book is valid then.
pub proof fn law_published_snapshot_is_sound(book: BookModel, update: UpdateModel, seq: u64)
    requires
        book.answer(update, seq) matches Ok(Some(_)),
    ensures
        book.answer(update, seq) matches Ok(Some(snapshot)) && {
            &&& is_ranked(Side::Buy, snapshot.bids)
            &&& is_ranked(Side::Sell, snapshot.asks)
            &&& all_positive(snapshot.bids)
            &&& all_positive(snapshot.asks)
            &&& snapshot.bids.len() > 0 || snapshot.asks.len() > 0
            &&& snapshot.bids.len() > 0 && snapshot.asks.len() > 0 ==> best(snapshot.bids)->0
                < best(snapshot.asks)->0
            &&& snapshot.instrument == book.instrument
            &&& snapshot.sequence == seq
        },
        book.after(update, seq).is_valid(),
{
    law_published_side(Side::Buy, book.staged_bids(update), 0);
    law_published_side(Side::Sell, book.staged_asks(update), 0);
}

/// An error always leaves the book invalid, and nothing else makes a valid book invalid.
pub proof fn law_error_means_invalid(book: BookModel, update: UpdateModel, seq: u64)
    ensures
        book.answer(update, seq) is Err ==> !book.after(update, seq).is_valid(),
        book.is_valid() && !book.after(update, seq).is_valid() ==> book.answer(
            update,
            seq,
        ) is Err,
{
}

/// An ignored update changes neither the levels nor whether the book is valid, and it raises no
/// warnings.
pub proof fn law_ignored_update_changes_no_level(book: BookModel, update: UpdateModel, seq: u64)
    requires
        book.answer(update, seq) matches Ok(None),
    ensures
        book.after(update, seq) == (BookModel {
            last_seq: book.after(update, seq).last_seq,
            warnings: Seq::empty(),
            ..book
        }),
{
}

/// Once an update has moved the book to its sequence number, any update with that number is
/// ignored and changes nothing, but that it raises no warnings.
pub proof fn law_repeated_number_is_ignored(
    book: BookModel,
    update: UpdateModel,
    seq: u64,
    again: UpdateModel,
)
    requires
        seq != 0,
        !(sequence_check(book.last_seq, seq) is Regression),
    ensures
        book.after(update, seq).answer(again, seq) matches Ok(None),
        book.after(update, seq).after(again, seq) == (BookModel {
            warnings: Seq::empty(),
            ..book.after(update, seq)
        }),
{
}

/// A number beyond the expected one is answered with an error that names both, makes the book
/// invalid and is on record; a full snapshot with the number after it then makes the book
/// valid again, unless that snapshot itself is rejected.
pub proof fn law_full_snapshot_recovers_from_gap(
    book: BookModel,
    update: UpdateModel,
    seq: u64,
    bids: Seq<PriceLevel>,
    asks: Seq<PriceLevel>,
)
    requires
        book.last_seq != 0,
        book.last_seq + 1 < seq < u64::MAX,
        rejection(published(Side::Buy, bids), published(Side::Sell, asks)) is None,
    ensures
        book.answer(update, seq) == Err::<Option<SnapshotModel>, BookFault>(
            BookFault::SequenceGap { expected: (book.last_seq + 1) as u64, got: seq },
        ),
        !book.after(update, seq).is_valid(),
        book.after(update, seq).last_seq == seq,
        book.after(update, seq).after(
            UpdateModel::Full { bids, asks },
            (seq + 1) as u64,
        ).is_valid(),
        book.after(update, seq).answer(
            UpdateModel::Full { bids, asks },
            (seq + 1) as u64,
        ) == Ok::<Option<SnapshotModel>, BookFault>(
            Some(
                SnapshotModel {
                    bids: published(Side::Buy, bids),
                    asks: published(Side::Sell, asks),
                    instrument: book.instrument,
                    sequence: (seq + 1) as u64,
                },
            ),
        ),
{
    law_publishing_twice_changes_nothing(Side::Buy, bids);
    law_publishing_twice_changes_nothing(Side::Sell, asks);
}

/// A number before the last one is answered with an error that names the expected one, makes
/// the book invalid and leaves the number on record as it was; a full snapshot with the
/// expected number then makes the book valid again, unless it is rejected.
pub proof fn law_full_snapshot_recovers_from_regression(
    book: BookModel,
    update: UpdateModel,
    seq: u64,
    bids: Seq<PriceLevel>,
    asks: Seq<PriceLevel>,
)
    requires
        seq < book.last_seq < u64::MAX,
        rejection(published(Side::Buy, bids), published(Side::Sell, asks)) is None,
    ensures
        book.answer(update, seq) == Err::<Option<SnapshotModel>, BookFault>(
            BookFault::SequenceRegression { expected: (book.last_seq + 1) as u64, got: seq },
        ),
        !book.after(update, seq).is_valid(),
        book.after(update, seq).last_seq == book.last_seq,
        book.after(update, seq).after(
            UpdateModel::Full { bids, asks },
            (book.last_seq + 1) as u64,
        ).is_valid(),
{
    law_publishing_twice_changes_nothing(Side::Buy, bids);
    law_publishing_twice_changes_nothing(Side::Sell, asks);
}

/// Levels that were published once are published as they are.
pub proof fn law_publishing_twice_changes_nothing(side: Side, levels: Seq<PriceLevel>)
    ensures
        published(side, published(side, levels)) == published(side, levels),
{
    let once = published(side, levels);
    law_published_side(side, levels, 0);
    crate::order_book::ranking::law_ranking_is_idempotent(side, once);
    lemma_positive_of_positive(once);
}

proof fn lemma_positive_of_positive(levels: Seq<PriceLevel>)
    requires
        all_positive(levels),
    ensures
        positive(levels) == levels,
    decreases levels.len(),
{
    if levels.len() > 0 {
        let front = levels.drop_last();
        assert(levels[levels.len() - 1].quantity > 0);
        assert forall|i: int| 0 <= i < front.len() implies (#[trigger] front[i]).quantity > 0 by {
            assert(front[i] == levels[i]);
        }
        lemma_positive_of_positive(front);
        assert(front.push(levels.last()) =~= levels);
    }
}

/// While the book is invalid, changes to it are ignored; their number alone goes on record, and
/// they raise no warnings.
pub proof fn law_invalid_book_ignores_changes(
    book: BookModel,
    bid_changes: Seq<PriceLevel>,
    ask_changes: Seq<PriceLevel>,
    seq: u64,
)
    requires
        !book.is_valid(),
        sequence_check(book.last_seq, seq) is Expected,
    ensures
        book.answer(UpdateModel::Delta { bid_changes, ask_changes }, seq) matches Ok(None),
        book.after(UpdateModel::Delta { bid_changes, ask_changes }, seq) == (BookModel {
            last_seq: seq,
            warnings: Seq::empty(),
            ..book
        }),
{
}

/// An invalid book becomes valid by a full snapshot only.
pub proof fn law_only_full_snapshot_recovers(book: BookModel, update: UpdateModel, seq: u64)
    requires
        !book.is_valid(),
        book.after(update, seq).is_valid(),
    ensures
        update is Full,
{
}

/// A full snapshot replaces the book: of the old levels nothing is left.
pub proof fn law_full_snapshot_replaces_levels(
    book: BookModel,
    bids: Seq<PriceLevel>,
    asks: Seq<PriceLevel>,
    seq: u64,
)
    requires
        sequence_check(book.last_seq, seq) is Expected,
    ensures
        book.after(UpdateModel::Full { bids, asks }, seq).bids == published(Side::Buy, bids),
        book.after(UpdateModel::Full { bids, asks }, seq).asks == published(Side::Sell, asks),
{
}

/// Changes to a valid book act price by price: the levels at a price become what the changes
/// at that price, in their order, make of them.
pub proof fn law_changes_act_price_by_price(
    book: BookModel,
    bid_changes: Seq<PriceLevel>,
    ask_changes: Seq<PriceLevel>,
    seq: u64,
    price: Price,
)
    requires
        book.is_valid(),
        sequence_check(book.last_seq, seq) is Expected,
    ensures
        levels_at(
            book.after(UpdateModel::Delta { bid_changes, ask_changes }, seq).bids,
            price,
        ) == queue_with_changes(levels_at(book.bids, price), levels_at(bid_changes, price)),
        levels_at(
            book.after(UpdateModel::Delta { bid_changes, ask_changes }, seq).asks,
            price,
        ) == queue_with_changes(levels_at(book.asks, price), levels_at(ask_changes, price)),
{
    law_ranked_is_stable(Side::Buy, with_changes(book.bids, bid_changes), price);
    law_ranked_is_stable(Side::Sell, with_changes(book.asks, ask_changes), price);
    law_changes_are_local(book.bids, bid_changes, price);
    law_changes_are_local(book.asks, ask_changes, price);
}

/// A book without two levels at one price gets none by changes.
pub proof fn law_changes_keep_book_distinct(
    book: BookModel,
    bid_changes: Seq<PriceLevel>,
    ask_changes: Seq<PriceLevel>,
    seq: u64,
)
    requires
        distinct_prices(book.bids),
        distinct_prices(book.asks),
    ensures
        distinct_prices(book.after(UpdateModel::Delta { bid_changes, ask_changes }, seq).bids),
        distinct_prices(book.after(UpdateModel::Delta { bid_changes, ask_changes }, seq).asks),
{
    let update = UpdateModel::Delta { bid_changes, ask_changes };
    let after = book.after(update, seq);
    if book.takes(update, seq) {
        let bids = with_changes(book.bids, bid_changes);
        let asks = with_changes(book.asks, ask_changes);
        law_changes_keep_prices_distinct(book.bids, bid_changes);
        law_changes_keep_prices_distinct(book.asks, ask_changes);
        assert forall|price: Price| (#[trigger] levels_at(after.bids, price)).len() <= 1 by {
            law_ranked_is_stable(Side::Buy, bids, price);
            assert(levels_at(bids, price).len() <= 1);
        }
        assert forall|price: Price| (#[trigger] levels_at(after.asks, price)).len() <= 1 by {
            law_ranked_is_stable(Side::Sell, asks, price);
            assert(levels_at(asks, price).len() <= 1);
        }
    }
}

/// The thresholds and the last mid price decide about warnings only: whether a snapshot is
/// rejected, and why, is up to its levels.
pub proof fn law_thresholds_never_reject(
    bids: Seq<PriceLevel>,
    asks: Seq<PriceLevel>,
    last_mid: Option<Price>,
    config: ValidationConfig,
)
    ensures
        verdict(bids, asks, last_mid, config) is Reject <==> rejection(bids, asks) is Some,
        rejection(bids, asks) is Some <==> {
            ||| bids.len() == 0 && asks.len() == 0
            ||| bids.len() > 0 && asks.len() > 0 && best(bids)->0 >= best(asks)->0
        },
{
}

/// A snapshot is published with the warnings that the checks raise about it, by the thresholds
/// and the mid price that the book had; an update that leads to no snapshot has none.
pub proof fn law_warnings_come_with_the_snapshot(book: BookModel, update: UpdateModel, seq: u64)
    ensures
        match book.answer(update, seq) {
            Ok(Some(snapshot)) => verdict(
                snapshot.bids,
                snapshot.asks,
                book.last_mid,
                book.config,
            ) == if book.after(update, seq).warnings.len() == 0 {
                Verdict::Pass
            } else {
                Verdict::Warn(book.after(update, seq).warnings)
            },
            _ => book.after(update, seq).warnings.len() == 0,
        },
{
}

/// Updates that are numbered from one on, as a feed reader numbers them, all have the number
/// that a fresh book expects.
pub proof fn law_consecutive_numbers_are_expected(
    instrument: Seq<char>,
    updates: Seq<(UpdateModel, u64)>,
    n: int,
)
    requires
        0 <= n < updates.len(),
        forall|i: int| 0 <= i < updates.len() ==> (#[trigger] updates[i]).1 == i + 1,
    ensures
        sequence_check(
            BookModel::fresh(instrument).after_all(updates.take(n)).last_seq,
            updates[n].1,
        ) is Expected,
{
    lemma_last_number_counts_updates(instrument, updates, n);
}

proof fn lemma_last_number_counts_updates(
    instrument: Seq<char>,
    updates: Seq<(UpdateModel, u64)>,
    n: int,
)
    requires
        0 <= n <= updates.len(),
        forall|i: int| 0 <= i < updates.len() ==> (#[trigger] updates[i]).1 == i + 1,
    ensures
        BookModel::fresh(instrument).after_all(updates.take(n)).last_seq == n,
    decreases n,
{
    if n > 0 {
        lemma_last_number_counts_updates(instrument, updates, n - 1);
        assert(updates.take(n).drop_last() =~= updates.take(n - 1));
        assert(updates.take(n).last() == updates[n - 1]);
    }
}

} // verus!

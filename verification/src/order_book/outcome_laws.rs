//! What an update does to a book, and how it is answered, in terms of its levels and numbers.
use crate::order_book::book::{
    BookError, BookFault, BookModel, BookState, BookUpdate, Condition, UpdateModel,
};
use crate::order_book::delta::with_changes;
use crate::order_book::ranking::{law_ranked_is_ranked, law_ranking_is_idempotent, ranked};
use crate::order_book::side_laws::{
    law_best_published_price, law_crossed_when_some_levels_cross, law_positive_picks_by_quantity,
};
use crate::order_book::validation::{validation_fits, warnings_about};
use crate::order_book::{mid_price, published, PriceLevel, SnapshotModel};
use crate::text::{decimal, signed_decimal};
use crate::types::Side;
use vstd::prelude::*;

verus! {

/// What the sequence number decides alone. Once a book has a number, the same number again is
/// ignored, a smaller one is a regression, and one beyond the next is a gap, whatever the
/// update holds. Each error names the number that was expected and the one that came, makes
/// the book invalid with that as its reason, and leaves the levels alone; a gap alone moves the
/// book to the number that came.
pub proof fn law_sequence_number_decides(book: BookModel, update: UpdateModel, seq: u64)
    requires
        0 < book.last_seq < u64::MAX,
    ensures
        ({
            let next = (book.last_seq + 1) as u64;
            let numbers = "expected "@ + decimal(next as nat) + ", got "@ + decimal(seq as nat);
            &&& seq == book.last_seq ==> {
                &&& book.answer(update, seq) == Ok::<Option<SnapshotModel>, BookFault>(None)
                &&& book.after(update, seq) == (BookModel { warnings: Seq::empty(), ..book })
            }
            &&& seq < book.last_seq ==> {
                &&& book.answer(update, seq) == Err::<Option<SnapshotModel>, BookFault>(
                    BookFault::SequenceRegression { expected: next, got: seq },
                )
                &&& book.after(update, seq) == (BookModel {
                    condition: Condition::Invalid("sequence regression: "@ + numbers),
                    warnings: Seq::empty(),
                    ..book
                })
            }
            &&& seq > next ==> {
                &&& book.answer(update, seq) == Err::<Option<SnapshotModel>, BookFault>(
                    BookFault::SequenceGap { expected: next, got: seq },
                )
                &&& book.after(update, seq) == (BookModel {
                    condition: Condition::Invalid("sequence gap: "@ + numbers),
                    last_seq: seq,
                    warnings: Seq::empty(),
                    ..book
                })
            }
            &&& seq == next ==> !(book.answer(update, seq) matches Err(
                BookFault::SequenceGap { .. },
            )) && !(book.answer(update, seq) matches Err(BookFault::SequenceRegression { .. }))
                && book.after(update, seq).last_seq == seq
        }),
{
}

/// A book that has no number yet takes any.
pub proof fn law_first_number_is_free(book: BookModel, update: UpdateModel, seq: u64)
    requires
        book.last_seq == 0,
    ensures
        !(book.answer(update, seq) matches Err(BookFault::SequenceGap { .. })),
        !(book.answer(update, seq) matches Err(BookFault::SequenceRegression { .. })),
        book.after(update, seq).last_seq == seq,
{
}

/// Changes to an invalid book are not applied: only their number goes on record.
pub proof fn law_changes_need_a_valid_book(
    book: BookModel,
    bid_changes: Seq<PriceLevel>,
    ask_changes: Seq<PriceLevel>,
    seq: u64,
)
    requires
        book.condition is Invalid,
        book.last_seq == 0 || seq == book.last_seq + 1,
    ensures
        ({
            let update = UpdateModel::Delta { bid_changes, ask_changes };
            &&& book.answer(update, seq) == Ok::<Option<SnapshotModel>, BookFault>(None)
            &&& book.after(update, seq) == (BookModel {
                last_seq: seq,
                warnings: Seq::empty(),
                ..book
            })
        }),
{
}

/// A full snapshot with the expected number, on a book that is valid or not, is answered with
/// an error exactly when none of its quantities is positive, or when one of its positive bids
/// is not below one of its positive asks. Otherwise it is published and the book is valid,
/// whatever the thresholds and the last mid price say: they only decide about the warnings
/// that come with it.
pub proof fn law_full_snapshot_is_published_or_rejected(
    book: BookModel,
    bids: Seq<PriceLevel>,
    asks: Seq<PriceLevel>,
    seq: u64,
)
    requires
        book.last_seq == 0 || seq == book.last_seq + 1,
    ensures
        ({
            let update = UpdateModel::Full { bids, asks };
            let after = book.after(update, seq);
            let answer = book.answer(update, seq);
            let no_level = (forall|i: int|
                0 <= i < bids.len() ==> (#[trigger] bids[i]).quantity <= 0) && (forall|j: int|
                0 <= j < asks.len() ==> (#[trigger] asks[j]).quantity <= 0);
            let crossing = exists|i: int, j: int|
                0 <= i < bids.len() && 0 <= j < asks.len() && (#[trigger] bids[i]).quantity > 0
                    && (#[trigger] asks[j]).quantity > 0 && bids[i].price >= asks[j].price;
            &&& after.bids == published(Side::Buy, bids)
            &&& after.asks == published(Side::Sell, asks)
            &&& after.last_seq == seq
            &&& after.instrument == book.instrument
            &&& after.config == book.config
            &&& no_level ==> {
                &&& answer == Err::<Option<SnapshotModel>, BookFault>(
                    BookFault::ValidationRejected("BothSidesEmpty"@),
                )
                &&& after.condition == Condition::Invalid("BothSidesEmpty"@)
            }
            &&& crossing ==> {
                let reason = "CrossedBook { best_bid: "@ + signed_decimal(
                    after.bids[0].price as int,
                ) + ", best_ask: "@ + signed_decimal(after.asks[0].price as int) + " }"@;
                &&& answer == Err::<Option<SnapshotModel>, BookFault>(
                    BookFault::ValidationRejected(reason),
                )
                &&& after.condition == Condition::Invalid(reason)
            }
            &&& no_level || crossing ==> {
                &&& after.last_mid == book.last_mid
                &&& after.warnings.len() == 0
            }
            &&& !no_level && !crossing ==> {
                &&& answer == Ok::<Option<SnapshotModel>, BookFault>(
                    Some(
                        SnapshotModel {
                            bids: after.bids,
                            asks: after.asks,
                            instrument: book.instrument,
                            sequence: seq,
                        },
                    ),
                )
                &&& after.condition is Valid
                &&& after.last_mid == mid_price(after.bids, after.asks)
                &&& after.warnings == warnings_about(
                    after.bids,
                    after.asks,
                    book.last_mid,
                    book.config,
                )
            }
        }),
{
    crate::order_book::laws::law_publishing_twice_changes_nothing(Side::Buy, bids);
    crate::order_book::laws::law_publishing_twice_changes_nothing(Side::Sell, asks);
    lemma_rejected_when(bids, asks);
}

proof fn lemma_rejected_when(bids: Seq<PriceLevel>, asks: Seq<PriceLevel>)
    ensures
        published(Side::Buy, bids).len() == 0 <==> forall|i: int|
            0 <= i < bids.len() ==> (#[trigger] bids[i]).quantity <= 0,
        published(Side::Sell, asks).len() == 0 <==> forall|j: int|
            0 <= j < asks.len() ==> (#[trigger] asks[j]).quantity <= 0,
        crate::order_book::validation::crossed(
            published(Side::Buy, bids),
            published(Side::Sell, asks),
        ) <==> exists|i: int, j: int|
            0 <= i < bids.len() && 0 <= j < asks.len() && (#[trigger] bids[i]).quantity > 0 && (
            #[trigger] asks[j]).quantity > 0 && bids[i].price >= asks[j].price,
{
    law_best_published_price(Side::Buy, bids);
    law_best_published_price(Side::Sell, asks);
    law_crossed_when_some_levels_cross(bids, asks);
}

/// Changes with the expected number to a valid book leave each side with the levels that the
/// changes make of it, in order of price. They are answered with an error exactly when none of
/// these levels is positive, or when a positive bid is not below a positive ask. Otherwise the
/// positive levels are published and the book stays valid.
pub proof fn law_changes_are_published_or_rejected(
    book: BookModel,
    bid_changes: Seq<PriceLevel>,
    ask_changes: Seq<PriceLevel>,
    seq: u64,
)
    requires
        book.condition is Valid,
        book.last_seq == 0 || seq == book.last_seq + 1,
    ensures
        ({
            let update = UpdateModel::Delta { bid_changes, ask_changes };
            let after = book.after(update, seq);
            let answer = book.answer(update, seq);
            let bids = after.bids;
            let asks = after.asks;
            let shown_bids = bids.filter(|level: PriceLevel| level.quantity > 0);
            let shown_asks = asks.filter(|level: PriceLevel| level.quantity > 0);
            let no_level = (forall|i: int|
                0 <= i < bids.len() ==> (#[trigger] bids[i]).quantity <= 0) && (forall|j: int|
                0 <= j < asks.len() ==> (#[trigger] asks[j]).quantity <= 0);
            let crossing = exists|i: int, j: int|
                0 <= i < bids.len() && 0 <= j < asks.len() && (#[trigger] bids[i]).quantity > 0
                    && (#[trigger] asks[j]).quantity > 0 && bids[i].price >= asks[j].price;
            &&& bids == ranked(Side::Buy, with_changes(book.bids, bid_changes))
            &&& asks == ranked(Side::Sell, with_changes(book.asks, ask_changes))
            &&& after.last_seq == seq
            &&& after.instrument == book.instrument
            &&& after.config == book.config
            &&& no_level ==> {
                &&& answer == Err::<Option<SnapshotModel>, BookFault>(
                    BookFault::ValidationRejected("BothSidesEmpty"@),
                )
                &&& after.condition == Condition::Invalid("BothSidesEmpty"@)
            }
            &&& crossing ==> {
                let reason = "CrossedBook { best_bid: "@ + signed_decimal(
                    shown_bids[0].price as int,
                ) + ", best_ask: "@ + signed_decimal(shown_asks[0].price as int) + " }"@;
                &&& answer == Err::<Option<SnapshotModel>, BookFault>(
                    BookFault::ValidationRejected(reason),
                )
                &&& after.condition == Condition::Invalid(reason)
            }
            &&& no_level || crossing ==> {
                &&& after.last_mid == book.last_mid
                &&& after.warnings.len() == 0
            }
            &&& !no_level && !crossing ==> {
                &&& answer == Ok::<Option<SnapshotModel>, BookFault>(
                    Some(
                        SnapshotModel {
                            bids: shown_bids,
                            asks: shown_asks,
                            instrument: book.instrument,
                            sequence: seq,
                        },
                    ),
                )
                &&& after.condition is Valid
                &&& after.last_mid == mid_price(shown_bids, shown_asks)
                &&& after.warnings == warnings_about(
                    shown_bids,
                    shown_asks,
                    book.last_mid,
                    book.config,
                )
            }
        }),
{
    let changed_bids = with_changes(book.bids, bid_changes);
    let changed_asks = with_changes(book.asks, ask_changes);
    let bids = ranked(Side::Buy, changed_bids);
    let asks = ranked(Side::Sell, changed_asks);
    law_ranked_is_ranked(Side::Buy, changed_bids);
    law_ranked_is_ranked(Side::Sell, changed_asks);
    law_ranking_is_idempotent(Side::Buy, bids);
    law_ranking_is_idempotent(Side::Sell, asks);
    law_positive_picks_by_quantity(bids);
    law_positive_picks_by_quantity(asks);
    lemma_rejected_when(bids, asks);
}

/// An update is within range exactly when the book's number has a next one and, where the
/// update is applied, the checks on the levels that it leads to are within range.
pub proof fn law_update_fits(book: BookModel, update: UpdateModel, seq: u64)
    ensures
        ({
            let shown = match update {
                UpdateModel::Full { bids, asks } => (
                    published(Side::Buy, bids),
                    published(Side::Sell, asks),
                ),
                UpdateModel::Delta { bid_changes, ask_changes } => (
                    published(Side::Buy, with_changes(book.bids, bid_changes)),
                    published(Side::Sell, with_changes(book.asks, ask_changes)),
                ),
            };
            book.admits(update, seq) <==> {
                &&& book.last_seq < u64::MAX
                &&& (book.last_seq == 0 || seq == book.last_seq + 1) && (update is Full
                    || book.condition is Valid) ==> validation_fits(
                    shown.0,
                    shown.1,
                    book.last_mid,
                )
            }
        }),
{
    match update {
        UpdateModel::Full { bids, asks } => {
            crate::order_book::laws::law_publishing_twice_changes_nothing(Side::Buy, bids);
            crate::order_book::laws::law_publishing_twice_changes_nothing(Side::Sell, asks);
        },
        UpdateModel::Delta { bid_changes, ask_changes } => {
            let bids = with_changes(book.bids, bid_changes);
            let asks = with_changes(book.asks, ask_changes);
            law_ranked_is_ranked(Side::Buy, bids);
            law_ranked_is_ranked(Side::Sell, asks);
            law_ranking_is_idempotent(Side::Buy, ranked(Side::Buy, bids));
            law_ranking_is_idempotent(Side::Sell, ranked(Side::Sell, asks));
        },
    }
}

/// A book starts without levels, number, mid price and warnings, and is not valid.
pub proof fn law_fresh_book_is_empty(instrument: Seq<char>)
    ensures
        BookModel::fresh(instrument).instrument == instrument,
        BookModel::fresh(instrument).bids.len() == 0,
        BookModel::fresh(instrument).asks.len() == 0,
        BookModel::fresh(instrument).last_seq == 0,
        BookModel::fresh(instrument).last_mid is None,
        BookModel::fresh(instrument).condition == Condition::Invalid("not yet initialized"@),
        BookModel::fresh(instrument).warnings.len() == 0,
        BookModel::fresh(instrument).config.max_spread_bps == 500,
        BookModel::fresh(instrument).config.max_mid_move_bps == 200,
{
}

/// A book counts as valid exactly in the valid condition.
pub proof fn law_valid_condition(book: BookModel)
    ensures
        book.is_valid() <==> book.condition is Valid,
{
}

/// An update stands for its levels.
pub proof fn law_update_shows_its_levels(a: Vec<PriceLevel>, b: Vec<PriceLevel>)
    ensures
        (BookUpdate::Full { bids: a, asks: b })@ == (UpdateModel::Full { bids: a@, asks: b@ }),
        (BookUpdate::Delta { bid_changes: a, ask_changes: b })@ == (UpdateModel::Delta {
            bid_changes: a@,
            ask_changes: b@,
        }),
{
}

/// A state stands for its reason.
pub proof fn law_state_shows_its_reason(reason: String)
    ensures
        BookState::Valid@ == Condition::Valid,
        (BookState::Invalid { reason })@ == Condition::Invalid(reason@),
{
}

/// An error says what its fault does, and its sentence holds the two numbers or the reason.
pub proof fn law_book_errors_tell(expected: u64, got: u64, reason: String)
    ensures
        (BookError::SequenceGap { expected, got })@ == (BookFault::SequenceGap { expected, got }),
        (BookError::SequenceRegression { expected, got })@ == (BookFault::SequenceRegression {
            expected,
            got,
        }),
        BookError::ValidationRejected(reason)@ == BookFault::ValidationRejected(reason@),
        (BookFault::SequenceGap { expected, got }).message() == "Sequence gap: "@ + ("expected "@
            + decimal(expected as nat) + ", got "@ + decimal(got as nat)),
        (BookFault::SequenceRegression { expected, got }).message() == "Sequence regression: "@ + (
        "expected "@ + decimal(expected as nat) + ", got "@ + decimal(got as nat)),
        BookFault::ValidationRejected(reason@).message() == "Snapshot validation rejected: "@
            + reason@,
{
}

} // verus!

//! The order book itself: sequence checks, updates and the snapshots that they lead to.
use crate::clock::is_clock_reading;
use crate::order_book::delta::{apply_side_delta, with_changes};
use crate::order_book::ranking::{
    is_ranked, keep_positive, law_positive_keeps_rank, law_ranked_is_ranked, law_ranking_is_idempotent,
    positive, rank, ranked,
};
use crate::order_book::validation::{
    can_validate, default_config, rejection, validate, validation_fits, warnings_about, ValidationConfig,
    ValidationRejection, ValidationResult, ValidationWarning,
};
use crate::order_book::{mid_price, published, BookSnapshot, PriceLevel, SnapshotModel};
use crate::text::{decimal, push_decimal, push_signed_decimal, signed_decimal};
use crate::types::{Price, Side, Symbol};
use vstd::prelude::*;

verus! {

/// An update of the book, from a feed of full snapshots or from one of incremental changes.
#[derive(Debug)]
pub enum BookUpdate {
    /// Replace the entire book.
    Full { bids: Vec<PriceLevel>, asks: Vec<PriceLevel> },
    /// Apply incremental changes. Quantity zero means: remove that price level.
    Delta { bid_changes: Vec<PriceLevel>, ask_changes: Vec<PriceLevel> },
}

/// A `BookUpdate` with its levels as sequences.
pub enum UpdateModel {
    Full { bids: Seq<PriceLevel>, asks: Seq<PriceLevel> },
    Delta { bid_changes: Seq<PriceLevel>, ask_changes: Seq<PriceLevel> },
}

impl View for BookUpdate {
    type V = UpdateModel;

    open spec fn view(&self) -> UpdateModel {
        match *self {
            BookUpdate::Full { bids, asks } => UpdateModel::Full { bids: bids@, asks: asks@ },
            BookUpdate::Delta { bid_changes, ask_changes } => UpdateModel::Delta {
                bid_changes: bid_changes@,
                ask_changes: ask_changes@,
            },
        }
    }
}

/// Message from a feed to the order book task.
pub struct RawBookUpdate {
    pub update: BookUpdate,
    pub seq: u64,
}

#[derive(Debug, Clone, PartialEq, Eq)]
pub enum BookState {
    /// The book is valid and being published.
    Valid,
    /// The book is invalid: a sequence gap, a crossed book or another failed check. Nothing is
    /// published until the next successful full snapshot.
    Invalid { reason: String },
}

/// A `BookState` with its reason as a sequence of characters.
pub enum Condition {
    Valid,
    Invalid(Seq<char>),
}

impl View for BookState {
    type V = Condition;

    open spec fn view(&self) -> Condition {
        match *self {
            BookState::Valid => Condition::Valid,
            BookState::Invalid { reason } => Condition::Invalid(reason@),
        }
    }
}

#[derive(Debug)]
pub enum BookError {
    SequenceGap { expected: u64, got: u64 },
    SequenceRegression { expected: u64, got: u64 },
    ValidationRejected(String),
}

/// A `BookError` with its text as a sequence of characters.
pub enum BookFault {
    SequenceGap { expected: u64, got: u64 },
    SequenceRegression { expected: u64, got: u64 },
    ValidationRejected(Seq<char>),
}

impl View for BookError {
    type V = BookFault;

    open spec fn view(&self) -> BookFault {
        match *self {
            BookError::SequenceGap { expected, got } => BookFault::SequenceGap { expected, got },
            BookError::SequenceRegression { expected, got } => BookFault::SequenceRegression {
                expected,
                got,
            },
            BookError::ValidationRejected(text) => BookFault::ValidationRejected(text@),
        }
    }
}

/// `expected <e>, got <g>`
pub open spec fn mismatch_text(expected: u64, got: u64) -> Seq<char> {
    "expected "@ + decimal(expected as nat) + ", got "@ + decimal(got as nat)
}

fn push_mismatch(text: &mut String, expected: u64, got: u64)
    ensures
        final(text)@ == old(text)@ + mismatch_text(expected, got),
{
    text.append("expected ");
    push_decimal(text, expected as u128);
    text.append(", got ");
    push_decimal(text, got as u128);
    assert(text@ =~= old(text)@ + mismatch_text(expected, got));
}

impl BookFault {
    /// The sentence that reports the fault.
    pub open spec fn message(self) -> Seq<char> {
        match self {
            BookFault::SequenceGap { expected, got } => "Sequence gap: "@ + mismatch_text(
                expected,
                got,
            ),
            BookFault::SequenceRegression { expected, got } => "Sequence regression: "@
                + mismatch_text(expected, got),
            BookFault::ValidationRejected(text) => "Snapshot validation rejected: "@ + text,
        }
    }
}

impl BookError {
    /// The sentence that reports the error.
    pub fn message(&self) -> (text: String)
        ensures
            text@ == self@.message(),
    {
        match self {
            BookError::SequenceGap { expected, got } => {
                let mut text = "Sequence gap: ".to_string();
                push_mismatch(&mut text, *expected, *got);
                text
            },
            BookError::SequenceRegression { expected, got } => {
                let mut text = "Sequence regression: ".to_string();
                push_mismatch(&mut text, *expected, *got);
                text
            },
            BookError::ValidationRejected(reason) => {
                let mut text = "Snapshot validation rejected: ".to_string();
                text.append(reason.as_str());
                text
            },
        }
    }
}

/// How a rejection is written down: its name, with its fields where it has any.
pub open spec fn rejection_text(reason: ValidationRejection) -> Seq<char> {
    match reason {
        ValidationRejection::CrossedBook { best_bid, best_ask } => "CrossedBook { best_bid: "@
            + signed_decimal(best_bid as int) + ", best_ask: "@ + signed_decimal(best_ask as int)
            + " }"@,
        ValidationRejection::BothSidesEmpty => "BothSidesEmpty"@,
    }
}

fn describe_rejection(reason: &ValidationRejection) -> (text: String)
    ensures
        text@ == rejection_text(*reason),
{
    match reason {
        ValidationRejection::CrossedBook { best_bid, best_ask } => {
            let mut text = "CrossedBook { best_bid: ".to_string();
            push_signed_decimal(&mut text, *best_bid);
            text.append(", best_ask: ");
            push_signed_decimal(&mut text, *best_ask);
            text.append(" }");
            text
        },
        ValidationRejection::BothSidesEmpty => "BothSidesEmpty".to_string(),
    }
}

/// How a sequence number relates to the last one.
pub enum SequenceCheck {
    Expected,
    Duplicate,
    Gap { expected: u64, got: u64 },
    Regression { expected: u64, got: u64 },
}

/// How `seq` relates to the last sequence number. As long as that is zero, any is expected;
/// then the next one is.
pub open spec fn sequence_check(last_seq: u64, seq: u64) -> SequenceCheck {
    if last_seq == 0 || seq == last_seq + 1 {
        SequenceCheck::Expected
    } else if seq == last_seq {
        SequenceCheck::Duplicate
    } else if seq < last_seq {
        SequenceCheck::Regression { expected: (last_seq + 1) as u64, got: seq }
    } else {
        SequenceCheck::Gap { expected: (last_seq + 1) as u64, got: seq }
    }
}

/// The order book as a mathematical value.
#[verifier::ext_equal]
pub struct BookModel {
    pub instrument: Seq<char>,
    pub bids: Seq<PriceLevel>,
    pub asks: Seq<PriceLevel>,
    pub last_seq: u64,
    pub last_mid: Option<Price>,
    pub condition: Condition,
    pub config: ValidationConfig,
    /// The warnings about the snapshot of the last update, if that led to one.
    pub warnings: Seq<ValidationWarning>,
}

impl BookModel {
    /// A book before its first update.
    pub open spec fn fresh(instrument: Seq<char>) -> BookModel {
        BookModel {
            instrument,
            bids: Seq::empty(),
            asks: Seq::empty(),
            last_seq: 0,
            last_mid: None,
            condition: Condition::Invalid("not yet initialized"@),
            config: default_config(),
            warnings: Seq::empty(),
        }
    }

    pub open spec fn is_valid(self) -> bool {
        self.condition is Valid
    }

    /// The bids once an update is applied.
    pub open spec fn staged_bids(self, update: UpdateModel) -> Seq<PriceLevel> {
        match update {
            UpdateModel::Full { bids, asks } => published(Side::Buy, bids),
            UpdateModel::Delta { bid_changes, ask_changes } => ranked(
                Side::Buy,
                with_changes(self.bids, bid_changes),
            ),
        }
    }

    /// The asks once an update is applied.
    pub open spec fn staged_asks(self, update: UpdateModel) -> Seq<PriceLevel> {
        match update {
            UpdateModel::Full { bids, asks } => published(Side::Sell, asks),
            UpdateModel::Delta { bid_changes, ask_changes } => ranked(
                Side::Sell,
                with_changes(self.asks, ask_changes),
            ),
        }
    }

    /// The snapshot that an update leads to.
    pub open spec fn offered(self, update: UpdateModel, seq: u64) -> SnapshotModel {
        SnapshotModel {
            bids: published(Side::Buy, self.staged_bids(update)),
            asks: published(Side::Sell, self.staged_asks(update)),
            instrument: self.instrument,
            sequence: seq,
        }
    }

    /// An update is applied, rather than ignored or refused, when its sequence number is
    /// expected and it does not build on a book that is invalid.
    pub open spec fn takes(self, update: UpdateModel, seq: u64) -> bool {
        &&& sequence_check(self.last_seq, seq) is Expected
        &&& update is Full || self.is_valid()
    }

    /// No computation for this update leaves the range of its type.
    pub open spec fn admits(self, update: UpdateModel, seq: u64) -> bool {
        &&& self.last_seq < u64::MAX
        &&& self.takes(update, seq) ==> validation_fits(
            self.offered(update, seq).bids,
            self.offered(update, seq).asks,
            self.last_mid,
        )
    }

    /// The book after an update.
    pub open spec fn after(self, update: UpdateModel, seq: u64) -> BookModel {
        match sequence_check(self.last_seq, seq) {
            SequenceCheck::Duplicate => BookModel { warnings: Seq::empty(), ..self },
            SequenceCheck::Gap { expected, got } => BookModel {
                condition: Condition::Invalid("sequence gap: "@ + mismatch_text(expected, got)),
                last_seq: got,
                warnings: Seq::empty(),
                ..self
            },
            SequenceCheck::Regression { expected, got } => BookModel {
                condition: Condition::Invalid(
                    "sequence regression: "@ + mismatch_text(expected, got),
                ),
                warnings: Seq::empty(),
                ..self
            },
            SequenceCheck::Expected => if self.takes(update, seq) {
                let snapshot = self.offered(update, seq);
                let staged = BookModel {
                    bids: self.staged_bids(update),
                    asks: self.staged_asks(update),
                    last_seq: seq,
                    warnings: Seq::empty(),
                    ..self
                };
                match rejection(snapshot.bids, snapshot.asks) {
                    Some(reason) => BookModel {
                        condition: Condition::Invalid(rejection_text(reason)),
                        ..staged
                    },
                    None => BookModel {
                        condition: Condition::Valid,
                        last_mid: mid_price(snapshot.bids, snapshot.asks),
                        warnings: warnings_about(
                            snapshot.bids,
                            snapshot.asks,
                            self.last_mid,
                            self.config,
                        ),
                        ..staged
                    },
                }
            } else {
                BookModel { last_seq: seq, warnings: Seq::empty(), ..self }
            },
        }
    }

    /// The answer to an update: a snapshot to publish, nothing, or a fault.
    pub open spec fn answer(self, update: UpdateModel, seq: u64) -> Result<
        Option<SnapshotModel>,
        BookFault,
    > {
        match sequence_check(self.last_seq, seq) {
            SequenceCheck::Duplicate => Ok(None),
            SequenceCheck::Gap { expected, got } => Err(BookFault::SequenceGap { expected, got }),
            SequenceCheck::Regression { expected, got } => Err(
                BookFault::SequenceRegression { expected, got },
            ),
            SequenceCheck::Expected => if self.takes(update, seq) {
                let snapshot = self.offered(update, seq);
                match rejection(snapshot.bids, snapshot.asks) {
                    Some(reason) => Err(BookFault::ValidationRejected(rejection_text(reason))),
                    None => Ok(Some(snapshot)),
                }
            } else {
                Ok(None)
            },
        }
    }

    /// Both sides are ranked, and a valid book is one that could be published: it has a level,
    /// it is not crossed, and its mid price is on record. There are warnings about a valid book
    /// only.
    pub open spec fn well_formed(self) -> bool {
        &&& is_ranked(Side::Buy, self.bids)
        &&& is_ranked(Side::Sell, self.asks)
        &&& self.warnings.len() > 0 ==> self.is_valid()
        &&& self.is_valid() ==> {
            &&& rejection(positive(self.bids), positive(self.asks)) is None
            &&& self.last_mid == mid_price(positive(self.bids), positive(self.asks))
        }
    }
}

/// What `apply` returns, without the time stamp of the snapshot.
pub open spec fn answer_of(result: Result<Option<BookSnapshot>, BookError>) -> Result<
    Option<SnapshotModel>,
    BookFault,
> {
    match result {
        Ok(Some(snapshot)) => Ok(Some(snapshot@)),
        Ok(None) => Ok(None),
        Err(error) => Err(error@),
    }
}

/// Maintains the internal order book of one instrument from a feed.
///
/// Sequence numbers are tracked, and every snapshot is checked before it is published.
pub struct OrderBook {
    instrument: Symbol,
    bids: Vec<PriceLevel>,
    asks: Vec<PriceLevel>,
    last_seq: u64,
    last_mid: Option<Price>,
    state: BookState,
    validation_config: ValidationConfig,
    warnings: Vec<ValidationWarning>,
}

impl View for OrderBook {
    type V = BookModel;

    closed spec fn view(&self) -> BookModel {
        BookModel {
            instrument: self.instrument@,
            bids: self.bids@,
            asks: self.asks@,
            last_seq: self.last_seq,
            last_mid: self.last_mid,
            condition: self.state@,
            config: self.validation_config,
            warnings: self.warnings@,
        }
    }
}

fn copy_levels(levels: &Vec<PriceLevel>) -> (copy: Vec<PriceLevel>)
    ensures
        copy@ == levels@,
{
    let copy = levels.clone();
    assert(copy@ =~= levels@);
    copy
}

fn full_side(side: Side, levels: &Vec<PriceLevel>) -> (staged: Vec<PriceLevel>)
    ensures
        staged@ == published(side, levels@),
{
    keep_positive(&rank(side, levels))
}

fn delta_side(
    side: Side,
    levels: &Vec<PriceLevel>,
    changes: &Vec<PriceLevel>,
) -> (staged: Vec<PriceLevel>)
    ensures
        staged@ == ranked(side, with_changes(levels@, changes@)),
{
    let mut changed = copy_levels(levels);
    apply_side_delta(&mut changed, changes);
    rank(side, &changed)
}

impl OrderBook {
    pub fn new(instrument: Symbol) -> (book: Self)
        ensures
            book@ == BookModel::fresh(instrument@),
            book@.well_formed(),
    {
        OrderBook {
            instrument,
            bids: Vec::new(),
            asks: Vec::new(),
            last_seq: 0,
            last_mid: None,
            state: BookState::Invalid { reason: "not yet initialized".to_string() },
            validation_config: ValidationConfig::default(),
            warnings: Vec::new(),
        }
    }

    pub fn with_validation_config(self, config: ValidationConfig) -> (book: Self)
        ensures
            book@ == (BookModel { config, ..self@ }),
    {
        let mut book = self;
        book.validation_config = config;
        book
    }

    pub fn state(&self) -> (state: &BookState)
        ensures
            state@ == self@.condition,
    {
        &self.state
    }

    pub fn is_valid(&self) -> (valid: bool)
        ensures
            valid == self@.is_valid(),
    {
        match &self.state {
            BookState::Valid => true,
            BookState::Invalid { .. } => false,
        }
    }

    pub fn last_sequence(&self) -> (seq: u64)
        ensures
            seq == self@.last_seq,
    {
        self.last_seq
    }

    /// The warnings about the snapshot of the last update. There are none where that update led
    /// to no snapshot.
    pub fn warnings(&self) -> (warnings: &Vec<ValidationWarning>)
        ensures
            warnings@ == self@.warnings,
    {
        &self.warnings
    }

    fn check_sequence(&self, seq: u64) -> (check: SequenceCheck)
        requires
            self@.last_seq < u64::MAX,
        ensures
            check == sequence_check(self@.last_seq, seq),
    {
        if self.last_seq == 0 {
            return SequenceCheck::Expected;
        }
        let expected: u64 = self.last_seq + 1;
        if seq == expected {
            SequenceCheck::Expected
        } else if seq < expected {
            if seq == self.last_seq {
                SequenceCheck::Duplicate
            } else {
                SequenceCheck::Regression { expected, got: seq }
            }
        } else {
            SequenceCheck::Gap { expected, got: seq }
        }
    }

    fn apply_full(&mut self, bids: Vec<PriceLevel>, asks: Vec<PriceLevel>)
        ensures
            final(self)@ == (BookModel {
                bids: published(Side::Buy, bids@),
                asks: published(Side::Sell, asks@),
                ..old(self)@
            }),
    {
        self.bids = full_side(Side::Buy, &bids);
        self.asks = full_side(Side::Sell, &asks);
    }

    fn apply_delta(&mut self, bid_changes: Vec<PriceLevel>, ask_changes: Vec<PriceLevel>)
        ensures
            final(self)@ == (BookModel {
                bids: ranked(Side::Buy, with_changes(old(self)@.bids, bid_changes@)),
                asks: ranked(Side::Sell, with_changes(old(self)@.asks, ask_changes@)),
                ..old(self)@
            }),
    {
        self.bids = delta_side(Side::Buy, &self.bids, &bid_changes);
        self.asks = delta_side(Side::Sell, &self.asks, &ask_changes);
    }

    /// Says whether `apply` can be called: no computation for the update leaves the range of
    /// its type.
    pub fn can_apply(&self, update: &BookUpdate, seq: u64) -> (fits: bool)
        ensures
            fits == self@.admits(update@, seq),
    {
        if self.last_seq == u64::MAX {
            return false;
        }
        match self.check_sequence(seq) {
            SequenceCheck::Expected => {},
            _ => {
                return true;
            },
        }
        let sides = match update {
            BookUpdate::Full { bids, asks } => (
                full_side(Side::Buy, bids),
                full_side(Side::Sell, asks),
            ),
            BookUpdate::Delta { bid_changes, ask_changes } => {
                if !self.is_valid() {
                    return true;
                }
                (
                    delta_side(Side::Buy, &self.bids, bid_changes),
                    delta_side(Side::Sell, &self.asks, ask_changes),
                )
            },
        };
        let snapshot = BookSnapshot::new(sides.0, sides.1, self.instrument.clone(), seq);
        can_validate(&snapshot, self.last_mid)
    }

    /// Applies an update with its sequence number.
    ///
    /// The answer is a snapshot where the update leads to one that can be published, nothing
    /// where the update is ignored (a repeated sequence number, or changes to an invalid
    /// book), and an error where the book has become invalid. The warnings about a snapshot are
    /// kept until the next update.
    pub fn apply(&mut self, update: BookUpdate, seq: u64) -> (result: Result<
        Option<BookSnapshot>,
        BookError,
    >)
        requires
            old(self)@.admits(update@, seq),
        ensures
            final(self)@ == old(self)@.after(update@, seq),
            answer_of(result) == old(self)@.answer(update@, seq),
            match old(self)@.answer(update@, seq) {
                Ok(Some(model)) => result matches Ok(Some(snapshot)) && snapshot@ == model,
                Ok(None) => result matches Ok(None),
                Err(fault) => result matches Err(error) && error@ == fault,
            },
            result matches Ok(Some(snapshot)) ==> is_clock_reading(snapshot.timestamp),
            result matches Ok(Some(snapshot)) ==> call_ensures(
                std::time::Instant::now,
                (),
                snapshot.timestamp,
            ),
            old(self)@.well_formed() ==> final(self)@.well_formed(),
    {
        proof {
            law_update_keeps_book_well_formed(self@, update@, seq);
        }
        let ghost before = self@;
        let ghost change = update@;
        self.warnings = Vec::new();
        match self.check_sequence(seq) {
            SequenceCheck::Expected => {},
            SequenceCheck::Duplicate => {
                return Ok(None);
            },
            SequenceCheck::Gap { expected, got } => {
                let mut reason = "sequence gap: ".to_string();
                push_mismatch(&mut reason, expected, got);
                self.state = BookState::Invalid { reason };
                // The next full snapshot follows this number, so that the book can recover.
                self.last_seq = got;
                return Err(BookError::SequenceGap { expected, got });
            },
            SequenceCheck::Regression { expected, got } => {
                let mut reason = "sequence regression: ".to_string();
                push_mismatch(&mut reason, expected, got);
                self.state = BookState::Invalid { reason };
                return Err(BookError::SequenceRegression { expected, got });
            },
        }
        match update {
            BookUpdate::Full { bids, asks } => {
                self.apply_full(bids, asks);
            },
            BookUpdate::Delta { bid_changes, ask_changes } => {
                if !self.is_valid() {
                    self.last_seq = seq;
                    return Ok(None);
                }
                self.apply_delta(bid_changes, ask_changes);
            },
        }
        self.last_seq = seq;
        let snapshot = BookSnapshot::new(
            copy_levels(&self.bids),
            copy_levels(&self.asks),
            self.instrument.clone(),
            seq,
        );
        assert(snapshot@ =~= before.offered(change, seq));
        match validate(&snapshot, self.last_mid, &self.validation_config) {
            ValidationResult::Reject(reason) => {
                let text = describe_rejection(&reason);
                self.state = BookState::Invalid { reason: text.clone() };
                Err(BookError::ValidationRejected(text))
            },
            ValidationResult::Warn(warnings) => {
                self.warnings = warnings;
                self.last_mid = snapshot.mid();
                self.state = BookState::Valid;
                Ok(Some(snapshot))
            },
            ValidationResult::Pass => {
                self.last_mid = snapshot.mid();
                self.state = BookState::Valid;
                Ok(Some(snapshot))
            },
        }
    }
}

/// An update leaves a well-formed book well formed: its sides stay ranked, and if it is valid
/// it could be published.
pub proof fn law_update_keeps_book_well_formed(book: BookModel, update: UpdateModel, seq: u64)
    ensures
        book.well_formed() ==> book.after(update, seq).well_formed(),
{
    if book.takes(update, seq) {
        let bids = book.staged_bids(update);
        let asks = book.staged_asks(update);
        match update {
            UpdateModel::Full { bids, asks } => {
                law_ranked_is_ranked(Side::Buy, bids);
                law_ranked_is_ranked(Side::Sell, asks);
                law_positive_keeps_rank(Side::Buy, ranked(Side::Buy, bids));
                law_positive_keeps_rank(Side::Sell, ranked(Side::Sell, asks));
            },
            UpdateModel::Delta { bid_changes, ask_changes } => {
                law_ranked_is_ranked(Side::Buy, with_changes(book.bids, bid_changes));
                law_ranked_is_ranked(Side::Sell, with_changes(book.asks, ask_changes));
            },
        }
        law_ranking_is_idempotent(Side::Buy, bids);
        law_ranking_is_idempotent(Side::Sell, asks);
    }
}

} // verus!

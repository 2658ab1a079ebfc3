use dual_venue_mm::order_book::{
    BookError, BookSnapshot, BookState, BookUpdate, OrderBook, PriceLevel, Publication, RawBookUpdate,
};
use dual_venue_mm::order_book::validation::{ValidationConfig, ValidationRejection, ValidationWarning};
use std::time::{Duration, Instant};

fn level(price: i64, quantity: i64) -> PriceLevel {
    PriceLevel { price, quantity }
}

fn full_update(bids: Vec<(i64, i64)>, asks: Vec<(i64, i64)>) -> BookUpdate {
    BookUpdate::Full {
        bids: bids.into_iter().map(|(p, q)| level(p, q)).collect(),
        asks: asks.into_iter().map(|(p, q)| level(p, q)).collect(),
    }
}

fn delta_update(bids: Vec<(i64, i64)>, asks: Vec<(i64, i64)>) -> BookUpdate {
    BookUpdate::Delta {
        bid_changes: bids.into_iter().map(|(p, q)| level(p, q)).collect(),
        ask_changes: asks.into_iter().map(|(p, q)| level(p, q)).collect(),
    }
}

#[test]
fn snapshot_best_bid_ask() {
    let snap = BookSnapshot::new(
        vec![level(1800, 100), level(1790, 200), level(1780, 300)],
        vec![level(1810, 100), level(1820, 200)],
        "TSLA".into(),
        1,
    );
    assert_eq!(snap.best_bid(), Some(1800));
    assert_eq!(snap.best_ask(), Some(1810));
}

#[test]
fn snapshot_mid_price() {
    let snap = BookSnapshot::new(vec![level(1800, 100)], vec![level(1810, 100)], "TSLA".into(), 1);
    assert_eq!(snap.mid(), Some(1805));
}

#[test]
fn snapshot_mid_truncates() {
    // (1800 + 1801) / 2 = 1800 (integer division truncates)
    let snap = BookSnapshot::new(vec![level(1800, 100)], vec![level(1801, 100)], "TSLA".into(), 1);
    assert_eq!(snap.mid(), Some(1800));
}

#[test]
fn snapshot_depth() {
    let snap = BookSnapshot::new(
        vec![level(1800, 100), level(1790, 200), level(1780, 300)],
        vec![level(1810, 100), level(1820, 200), level(1830, 300)],
        "TSLA".into(),
        1,
    );
    let (bids, asks) = snap.depth(2);
    assert_eq!(bids.len(), 2);
    assert_eq!(asks.len(), 2);
    assert_eq!(bids[0].price, 1800); // best bid first
    assert_eq!(asks[0].price, 1810); // best ask first
}

#[test]
fn snapshot_depth_capped_at_book_size() {
    let snap = BookSnapshot::new(vec![level(1800, 100)], vec![level(1810, 100)], "TSLA".into(), 1);
    let (bids, asks) = snap.depth(10);
    assert_eq!(bids.len(), 1); // only 1 level available
    assert_eq!(asks.len(), 1);
}

#[test]
fn snapshot_is_crossed() {
    let snap = BookSnapshot::new(
        vec![level(1820, 100)], // bid > ask = crossed
        vec![level(1810, 100)],
        "TSLA".into(),
        1,
    );
    assert!(snap.is_crossed());
}

#[test]
fn snapshot_not_crossed() {
    let snap = BookSnapshot::new(vec![level(1800, 100)], vec![level(1810, 100)], "TSLA".into(), 1);
    assert!(!snap.is_crossed());
}

#[test]
fn snapshot_sorts_unsorted_input() {
    // Input bids are in wrong order: they are sorted descending
    let snap = BookSnapshot::new(
        vec![level(1780, 300), level(1800, 100), level(1790, 200)],
        vec![level(1830, 300), level(1810, 100), level(1820, 200)],
        "TSLA".into(),
        1,
    );
    assert_eq!(snap.bids[0].price, 1800);
    assert_eq!(snap.bids[1].price, 1790);
    assert_eq!(snap.bids[2].price, 1780);
    assert_eq!(snap.asks[0].price, 1810);
    assert_eq!(snap.asks[1].price, 1820);
    assert_eq!(snap.asks[2].price, 1830);
}

#[test]
fn snapshot_drops_zero_quantity_levels() {
    let snap = BookSnapshot::new(
        vec![level(1800, 100), level(1790, 0)], // zero qty is dropped
        vec![level(1810, 0), level(1820, 100)],
        "TSLA".into(),
        1,
    );
    assert_eq!(snap.bids.len(), 1);
    assert_eq!(snap.asks.len(), 1);
    assert_eq!(snap.bids[0].price, 1800);
    assert_eq!(snap.asks[0].price, 1820);
}

#[test]
fn snapshot_empty_sides_return_none() {
    let snap = BookSnapshot::new(vec![], vec![], "TSLA".into(), 1);
    assert_eq!(snap.best_bid(), None);
    assert_eq!(snap.best_ask(), None);
    assert_eq!(snap.mid(), None);
}

#[test]
fn snapshot_staleness() {
    let snap = BookSnapshot::new(vec![level(1800, 100)], vec![level(1810, 100)], "TSLA".into(), 1);
    // Just created: not stale for 1 second threshold
    assert!(!snap.is_stale(Duration::from_secs(1)));
    // Stale for 0 duration
    assert!(snap.is_stale(Duration::from_nanos(0)));
}

#[test]
fn apply_full_snapshot_initializes_book() {
    let mut book = OrderBook::new("TSLA".into());
    let result = book.apply(full_update(vec![(1800, 100)], vec![(1810, 100)]), 1);
    assert!(result.is_ok());
    let snap = result.unwrap().expect("should produce snapshot");
    assert_eq!(snap.best_bid(), Some(1800));
    assert_eq!(snap.best_ask(), Some(1810));
    assert!(book.is_valid());
}

#[test]
fn apply_full_snapshot_replaces_book() {
    let mut book = OrderBook::new("TSLA".into());
    book.apply(full_update(vec![(1800, 100)], vec![(1810, 100)]), 1).unwrap();
    // Second snapshot with completely different levels
    let snap = book.apply(full_update(vec![(1850, 200)], vec![(1860, 200)]), 2).unwrap().unwrap();
    assert_eq!(snap.best_bid(), Some(1850));
    assert_eq!(snap.best_ask(), Some(1860));
}

#[test]
fn apply_delta_updates_existing_level() {
    let mut book = OrderBook::new("TSLA".into());
    book.apply(full_update(vec![(1800, 100)], vec![(1810, 100)]), 1).unwrap();
    let snap = book
        .apply(delta_update(vec![(1800, 200)], vec![]), 2) // update bid qty
        .unwrap()
        .unwrap();
    assert_eq!(snap.bids[0].quantity, 200);
}

#[test]
fn apply_delta_removes_level_on_zero_quantity() {
    let mut book = OrderBook::new("TSLA".into());
    book.apply(full_update(vec![(1800, 100), (1790, 200)], vec![(1810, 100)]), 1).unwrap();
    // Remove the 1800 bid level
    let snap = book.apply(delta_update(vec![(1800, 0)], vec![]), 2).unwrap().unwrap();
    assert_eq!(snap.bids.len(), 1);
    assert_eq!(snap.best_bid(), Some(1790));
}

#[test]
fn apply_delta_adds_new_level() {
    let mut book = OrderBook::new("TSLA".into());
    book.apply(full_update(vec![(1800, 100)], vec![(1810, 100)]), 1).unwrap();
    let snap = book
        .apply(delta_update(vec![(1795, 150)], vec![]), 2) // new level
        .unwrap()
        .unwrap();
    assert_eq!(snap.bids.len(), 2);
    assert_eq!(snap.bids[0].price, 1800); // still best bid
    assert_eq!(snap.bids[1].price, 1795); // new level
}

#[test]
fn apply_duplicate_sequence_ignored() {
    let mut book = OrderBook::new("TSLA".into());
    book.apply(full_update(vec![(1800, 100)], vec![(1810, 100)]), 1).unwrap();
    // Same seq again: silently ignored
    let result = book.apply(full_update(vec![(9999, 1)], vec![(9999, 1)]), 1).unwrap();
    assert!(result.is_none()); // no snapshot produced
    // Book still has original values
    assert!(book.is_valid());
}

#[test]
fn apply_sequence_gap_marks_invalid() {
    let mut book = OrderBook::new("TSLA".into());
    book.apply(full_update(vec![(1800, 100)], vec![(1810, 100)]), 1).unwrap();
    // Skip seq 2, jump to 5: gap
    let err = book.apply(full_update(vec![(1800, 100)], vec![(1810, 100)]), 5);
    assert!(matches!(err, Err(BookError::SequenceGap { expected: 2, got: 5 })));
    assert!(!book.is_valid());
}

#[test]
fn apply_full_snapshot_recovers_from_invalid() {
    let mut book = OrderBook::new("TSLA".into());
    book.apply(full_update(vec![(1800, 100)], vec![(1810, 100)]), 1).unwrap();
    // Force invalid via gap
    let _ = book.apply(full_update(vec![(1800, 100)], vec![(1810, 100)]), 5);
    assert!(!book.is_valid());
    // Full snapshot recovers the book: seq 6 is next after 5
    let snap = book.apply(full_update(vec![(1850, 100)], vec![(1860, 100)]), 6).unwrap().unwrap();
    assert!(book.is_valid());
    assert_eq!(snap.best_bid(), Some(1850));
}

#[test]
fn apply_delta_ignored_when_book_invalid() {
    let mut book = OrderBook::new("TSLA".into());
    // Book never initialized: still invalid
    let result = book.apply(delta_update(vec![(1800, 100)], vec![]), 1).unwrap();
    // Delta ignored: book still invalid, no snapshot
    assert!(result.is_none());
}

#[test]
fn apply_crossed_book_rejected() {
    let mut book = OrderBook::new("TSLA".into());
    // bid > ask = crossed: rejected
    let err = book.apply(full_update(vec![(1820, 100)], vec![(1810, 100)]), 1);
    assert!(matches!(err, Err(BookError::ValidationRejected(_))));
    assert!(!book.is_valid());
}

#[test]
fn apply_both_sides_empty_rejected() {
    let mut book = OrderBook::new("TSLA".into());
    let err = book.apply(full_update(vec![], vec![]), 1);
    assert!(matches!(err, Err(BookError::ValidationRejected(_))));
}

#[test]
fn spread_calculation() {
    let snap = BookSnapshot::new(vec![level(1800, 100)], vec![level(1810, 100)], "TSLA".into(), 1);
    assert_eq!(snap.spread(), Some(10));
}

#[test]
fn mid_rounds_towards_zero() {
    let snap = BookSnapshot::new(vec![level(-10, 1)], vec![level(-5, 1)], "SPREAD".into(), 1);
    assert_eq!(snap.mid(), Some(-7));
    assert_eq!(snap.spread(), Some(5));
}

#[test]
fn levels_at_one_price_keep_their_order() {
    let snap = BookSnapshot::new(
        vec![level(10, 1), level(11, 2), level(10, 3), level(11, 4), level(10, -5)],
        vec![level(20, 1), level(19, 2), level(20, 3)],
        "TSLA".into(),
        7,
    );
    assert_eq!(snap.bids, vec![level(11, 2), level(11, 4), level(10, 1), level(10, 3)]);
    assert_eq!(snap.asks, vec![level(19, 2), level(20, 1), level(20, 3)]);
    assert_eq!(snap.sequence, 7);
    assert_eq!(snap.instrument, "TSLA");
}

#[test]
fn touching_prices_are_crossed() {
    let snap = BookSnapshot::new(vec![level(1810, 1)], vec![level(1810, 1)], "TSLA".into(), 1);
    assert!(snap.is_crossed());
    let snap = BookSnapshot::new(vec![level(1810, 1)], vec![], "TSLA".into(), 1);
    assert!(!snap.is_crossed());
}

#[test]
fn snapshot_is_never_older_than_the_longest_duration() {
    let snap = BookSnapshot::new(vec![], vec![], "TSLA".into(), 1);
    assert!(!snap.is_stale(Duration::MAX));
}

#[test]
fn new_book_waits_for_its_first_update() {
    let book = OrderBook::new("TSLA".into());
    assert_eq!(book.state(), &BookState::Invalid { reason: "not yet initialized".to_string() });
    assert!(!book.is_valid());
    assert_eq!(book.last_sequence(), 0);
}

#[test]
fn first_update_may_have_any_number() {
    let mut book = OrderBook::new("TSLA".into());
    assert!(book.apply(full_update(vec![(1, 1)], vec![(2, 1)]), 77).unwrap().is_some());
    assert_eq!(book.last_sequence(), 77);
}

#[test]
fn number_zero_keeps_the_next_number_open() {
    let mut book = OrderBook::new("TSLA".into());
    assert!(book.apply(full_update(vec![(1, 1)], vec![(2, 1)]), 0).unwrap().is_some());
    assert!(book.apply(full_update(vec![(1, 1)], vec![(2, 1)]), 9).unwrap().is_some());
}

#[test]
fn gap_is_recorded_with_its_reason() {
    let mut book = OrderBook::new("TSLA".into());
    book.apply(full_update(vec![(1800, 100)], vec![(1810, 100)]), 1).unwrap();
    let error = book.apply(full_update(vec![], vec![]), 5).unwrap_err();
    assert_eq!(error.message(), "Sequence gap: expected 2, got 5");
    assert_eq!(book.state(), &BookState::Invalid { reason: "sequence gap: expected 2, got 5".to_string() });
    assert_eq!(book.last_sequence(), 5);
}

#[test]
fn regression_is_recorded_and_the_expected_number_recovers() {
    let mut book = OrderBook::new("TSLA".into());
    book.apply(full_update(vec![(1800, 100)], vec![(1810, 100)]), 10).unwrap();
    let error = book.apply(full_update(vec![(1, 1)], vec![(2, 1)]), 8).unwrap_err();
    assert!(matches!(error, BookError::SequenceRegression { expected: 11, got: 8 }));
    assert_eq!(error.message(), "Sequence regression: expected 11, got 8");
    assert_eq!(
        book.state(),
        &BookState::Invalid { reason: "sequence regression: expected 11, got 8".to_string() }
    );
    assert_eq!(book.last_sequence(), 10);
    assert!(book.apply(delta_update(vec![(1800, 1)], vec![]), 11).unwrap().is_none());
    assert!(!book.is_valid());
    assert!(book.apply(full_update(vec![(5, 1)], vec![(6, 1)]), 12).unwrap().is_some());
    assert!(book.is_valid());
}

#[test]
fn rejection_is_recorded_with_its_reason() {
    let mut book = OrderBook::new("TSLA".into());
    let error = book.apply(full_update(vec![(-5, 1)], vec![(-1810, 1)]), 1).unwrap_err();
    assert_eq!(
        error.message(),
        "Snapshot validation rejected: CrossedBook { best_bid: -5, best_ask: -1810 }"
    );
    assert_eq!(
        book.state(),
        &BookState::Invalid { reason: "CrossedBook { best_bid: -5, best_ask: -1810 }".to_string() }
    );
    let error = book.apply(full_update(vec![(3, 0)], vec![]), 2).unwrap_err();
    assert_eq!(error.message(), "Snapshot validation rejected: BothSidesEmpty");
    assert_eq!(book.last_sequence(), 2);
}

#[test]
fn reasons_read_like_the_debug_form() {
    let crossed = ValidationRejection::CrossedBook { best_bid: 1820, best_ask: 1810 };
    let mut book = OrderBook::new("TSLA".into());
    match book.apply(full_update(vec![(1820, 100)], vec![(1810, 100)]), 1) {
        Err(BookError::ValidationRejected(text)) => assert_eq!(text, format!("{crossed:?}")),
        other => panic!("{other:?}"),
    }
}

#[test]
fn changes_act_on_the_first_level_at_their_price() {
    let mut book = OrderBook::new("TSLA".into());
    book.apply(full_update(vec![(10, 1), (10, 2), (9, 3)], vec![(20, 1)]), 1).unwrap();
    let snap = book.apply(delta_update(vec![(10, 0)], vec![(20, 4), (19, 5)]), 2).unwrap().unwrap();
    assert_eq!(snap.bids, vec![level(10, 2), level(9, 3)]);
    assert_eq!(snap.asks, vec![level(19, 5), level(20, 4)]);
}

#[test]
fn changes_with_nothing_to_remove_are_no_changes() {
    let mut book = OrderBook::new("TSLA".into());
    book.apply(full_update(vec![(10, 1)], vec![(20, 1)]), 1).unwrap();
    let snap = book.apply(delta_update(vec![(11, 0), (12, -4)], vec![]), 2).unwrap().unwrap();
    assert_eq!(snap.bids, vec![level(10, 1)]);
}

#[test]
fn negative_change_hides_a_level_until_it_is_set_again() {
    let mut book = OrderBook::new("TSLA".into());
    book.apply(full_update(vec![(10, 1), (9, 2)], vec![(20, 1)]), 1).unwrap();
    let snap = book.apply(delta_update(vec![(10, -1)], vec![]), 2).unwrap().unwrap();
    assert_eq!(snap.bids, vec![level(9, 2)]);
    let snap = book.apply(delta_update(vec![(10, 7)], vec![]), 3).unwrap().unwrap();
    assert_eq!(snap.bids, vec![level(10, 7), level(9, 2)]);
}

#[test]
fn rejected_changes_leave_an_invalid_book() {
    let mut book = OrderBook::new("TSLA".into());
    book.apply(full_update(vec![(10, 1)], vec![(20, 1)]), 1).unwrap();
    assert!(book.apply(delta_update(vec![(25, 1)], vec![]), 2).is_err());
    assert!(!book.is_valid());
    assert!(book.apply(delta_update(vec![(25, 0)], vec![]), 3).unwrap().is_none());
    assert_eq!(book.last_sequence(), 3);
}

#[test]
fn one_sided_book_is_published() {
    let mut book = OrderBook::new("TSLA".into());
    let snap = book.apply(full_update(vec![(10, 1)], vec![]), 1).unwrap().unwrap();
    assert_eq!(snap.mid(), None);
    assert!(book.is_valid());
}

#[test]
fn strict_thresholds_warn_but_publish() {
    let mut book = OrderBook::new("TSLA".into())
        .with_validation_config(ValidationConfig { max_spread_bps: 0, max_mid_move_bps: 0 });
    assert!(book.apply(full_update(vec![(10, 1)], vec![(20, 1)]), 1).unwrap().is_some());
    assert_eq!(
        book.warnings(),
        &vec![ValidationWarning::AbnormalSpread { spread_bps: 6666, threshold_bps: 0 }]
    );
    assert!(book.apply(full_update(vec![(100, 1)], vec![(200, 1)]), 2).unwrap().is_some());
    // the mid price went from 15 to 150
    assert_eq!(
        book.warnings(),
        &vec![
            ValidationWarning::AbnormalSpread { spread_bps: 6666, threshold_bps: 0 },
            ValidationWarning::LargePrice { mid_move_bps: 90_000, threshold_bps: 0 },
        ]
    );
    assert!(book.is_valid());
}

#[test]
fn warnings_last_until_the_next_update() {
    let mut book = OrderBook::new("TSLA".into());
    assert!(book.warnings().is_empty());
    // two percent move, five percent spread: unsuspicious by default
    book.apply(full_update(vec![(9_750, 1)], vec![(10_250, 1)]), 1).unwrap();
    assert!(book.warnings().is_empty());
    book.apply(full_update(vec![(9_950, 1)], vec![(10_450, 1)]), 2).unwrap();
    assert!(book.warnings().is_empty());
    let one_sided = |book: &mut OrderBook, seq: u64| {
        book.apply(full_update(vec![], vec![(10_450, 1)]), seq).unwrap();
        assert_eq!(book.warnings(), &vec![ValidationWarning::OneSideEmpty { side: "bids" }]);
    };
    // a repeated number
    one_sided(&mut book, 3);
    book.apply(full_update(vec![(1, 1)], vec![]), 3).unwrap();
    assert!(book.warnings().is_empty());
    // a regression
    one_sided(&mut book, 4);
    book.apply(full_update(vec![(1, 1)], vec![]), 2).unwrap_err();
    assert!(book.warnings().is_empty());
    // ignored changes
    book.apply(delta_update(vec![(1, 1)], vec![]), 5).unwrap();
    assert!(book.warnings().is_empty());
    // a rejected snapshot
    one_sided(&mut book, 6);
    book.apply(full_update(vec![], vec![]), 7).unwrap_err();
    assert!(book.warnings().is_empty());
    // a gap
    one_sided(&mut book, 8);
    book.apply(full_update(vec![(1, 1)], vec![]), 10).unwrap_err();
    assert!(book.warnings().is_empty());
}

#[test]
fn move_is_measured_from_the_last_published_mid() {
    let mut book = OrderBook::new("TSLA".into());
    book.apply(full_update(vec![(9_990, 1)], vec![(10_010, 1)]), 1).unwrap();
    // a rejected snapshot leaves the last mid price as it was
    book.apply(full_update(vec![(20_000, 1)], vec![(19_000, 1)]), 2).unwrap_err();
    book.apply(full_update(vec![(10_290, 1)], vec![(10_310, 1)]), 3).unwrap();
    assert_eq!(
        book.warnings(),
        &vec![ValidationWarning::LargePrice { mid_move_bps: 300, threshold_bps: 200 }]
    );
    // without a mid price there is nothing to measure from
    book.apply(full_update(vec![(10_290, 1)], vec![]), 4).unwrap();
    book.apply(full_update(vec![(5_000, 1)], vec![(5_010, 1)]), 5).unwrap();
    assert!(book.warnings().is_empty());
}

#[test]
fn snapshots_bear_the_time_of_the_clock() {
    let before = Instant::now();
    let mut book = OrderBook::new("TSLA".into());
    let snap = book.apply(full_update(vec![(10, 1)], vec![(20, 1)]), 1).unwrap().unwrap();
    let after = Instant::now();
    assert!(before <= snap.timestamp && snap.timestamp <= after);
}

#[test]
fn arithmetic_out_of_range_is_recognised() {
    let book = OrderBook::new("TSLA".into());
    assert!(book.can_apply(&full_update(vec![(1800, 1)], vec![(1810, 1)]), 1));
    assert!(!book.can_apply(&full_update(vec![(i64::MAX - 1, 1)], vec![(i64::MAX, 1)]), 1));
    assert!(!book.can_apply(&full_update(vec![(1, 1)], vec![(1_000_000_000_000_000, 1)]), 1));
    // a crossed book is rejected before anything is computed
    assert!(book.can_apply(&full_update(vec![(i64::MAX, 1)], vec![(i64::MAX, 1)]), 1));
    // levels that are dropped do not count
    assert!(book.can_apply(&full_update(vec![(1, 1)], vec![(3, 1), (2, 0)]), 1));
    let mut last = OrderBook::new("TSLA".into());
    last.apply(full_update(vec![(1800, 1)], vec![(1810, 1)]), u64::MAX).unwrap();
    assert!(!last.can_apply(&full_update(vec![(1800, 1)], vec![(1810, 1)]), 1));
}

#[test]
fn changes_are_checked_for_range_too() {
    let mut book = OrderBook::new("TSLA".into());
    let large = vec![(i64::MAX, 1)];
    // ignored while the book is invalid
    assert!(book.can_apply(&delta_update(vec![(i64::MAX - 1, 1)], large.clone()), 1));
    book.apply(full_update(vec![(10, 1)], vec![]), 1).unwrap();
    assert!(!book.can_apply(&delta_update(vec![(i64::MAX - 1, 1)], large.clone()), 2));
    assert!(book.can_apply(&delta_update(vec![(11, 1)], vec![(12, 1)]), 2));
    assert!(book.can_apply(&delta_update(vec![(i64::MAX - 1, 1)], large), 1));
}

#[test]
fn readers_see_what_the_book_holds() {
    let mut book = OrderBook::new("TSLA".into());
    let mut seen: Option<BookSnapshot> = None;
    let updates = vec![
        RawBookUpdate { update: delta_update(vec![(1, 1)], vec![]), seq: 1 },
        RawBookUpdate { update: full_update(vec![(10, 1)], vec![(20, 1)]), seq: 2 },
        RawBookUpdate { update: full_update(vec![(99, 1)], vec![(98, 1)]), seq: 2 },
        RawBookUpdate { update: delta_update(vec![(11, 2)], vec![]), seq: 3 },
        RawBookUpdate { update: full_update(vec![(10, 1)], vec![(20, 1)]), seq: 9 },
        RawBookUpdate { update: full_update(vec![(12, 1)], vec![(22, 1)]), seq: 10 },
    ];
    let expected = vec![None, Some(10), Some(10), Some(11), None, Some(12)];
    for (raw, bid) in updates.into_iter().zip(expected) {
        match book.process(raw) {
            Publication::Snapshot(snapshot) => seen = Some(snapshot),
            Publication::Unchanged => {}
            Publication::Withdrawn(error) => {
                assert_eq!(error.message(), "Sequence gap: expected 4, got 9");
                seen = None;
            }
        }
        assert_eq!(seen.is_some(), book.is_valid());
        assert_eq!(seen.as_ref().and_then(|s| s.best_bid()), bid);
        if let Some(snapshot) = &seen {
            assert_eq!(snapshot.sequence, book.last_sequence());
        }
    }
}

use dual_venue_mm::order_book::validation::{
    can_validate, validate, ValidationConfig, ValidationRejection, ValidationResult, ValidationWarning,
};
use dual_venue_mm::order_book::{BookSnapshot, PriceLevel};

fn make_snapshot(bids: Vec<(i64, i64)>, asks: Vec<(i64, i64)>) -> BookSnapshot {
    BookSnapshot::new(
        bids.into_iter().map(|(p, q)| PriceLevel { price: p, quantity: q }).collect(),
        asks.into_iter().map(|(p, q)| PriceLevel { price: p, quantity: q }).collect(),
        "TSLA".to_string(),
        1,
    )
}

#[test]
fn valid_book_passes() {
    let snap = make_snapshot(vec![(1800, 100)], vec![(1810, 100)]);
    assert_eq!(validate(&snap, None, &ValidationConfig::default()), ValidationResult::Pass);
}

#[test]
fn rejects_both_sides_empty() {
    let snap = make_snapshot(vec![], vec![]);
    assert!(matches!(
        validate(&snap, None, &ValidationConfig::default()),
        ValidationResult::Reject(ValidationRejection::BothSidesEmpty)
    ));
}

#[test]
fn rejects_crossed_book() {
    // bid > ask = crossed
    let snap = make_snapshot(vec![(1820, 100)], vec![(1810, 100)]);
    assert!(matches!(
        validate(&snap, None, &ValidationConfig::default()),
        ValidationResult::Reject(ValidationRejection::CrossedBook { .. })
    ));
}

#[test]
fn warns_on_abnormal_spread() {
    let config = ValidationConfig { max_spread_bps: 10, max_mid_move_bps: 200 };
    // spread = (2000 - 1000) / 1500 * 10000 = 6666 bps >> 10
    let snap = make_snapshot(vec![(1000, 100)], vec![(2000, 100)]);
    assert!(matches!(validate(&snap, None, &config), ValidationResult::Warn(_)));
}

#[test]
fn warns_on_large_price_move() {
    let config = ValidationConfig { max_spread_bps: 500, max_mid_move_bps: 50 };
    let snap = make_snapshot(vec![(1800, 100)], vec![(1810, 100)]);
    // last_mid = 1000, new mid 1805: move = 805/1000 * 10000 = 8050 bps >> 50
    assert!(matches!(validate(&snap, Some(1000), &config), ValidationResult::Warn(_)));
}

#[test]
fn rejection_names_the_best_prices() {
    let snap = make_snapshot(vec![(1820, 100), (1700, 1)], vec![(1810, 100), (1900, 1)]);
    assert_eq!(
        validate(&snap, None, &ValidationConfig::default()),
        ValidationResult::Reject(ValidationRejection::CrossedBook { best_bid: 1820, best_ask: 1810 })
    );
}

#[test]
fn warnings_have_exact_figures() {
    let config = ValidationConfig { max_spread_bps: 10, max_mid_move_bps: 50 };
    let snap = make_snapshot(vec![(1000, 100)], vec![(2000, 100)]);
    assert_eq!(
        validate(&snap, Some(2000), &config),
        ValidationResult::Warn(vec![
            ValidationWarning::AbnormalSpread { spread_bps: 6666, threshold_bps: 10 },
            ValidationWarning::LargePrice { mid_move_bps: 2500, threshold_bps: 50 },
        ])
    );
}

#[test]
fn thresholds_themselves_raise_no_warning() {
    // spread 50 bps of mid 10000, move 100 bps of last mid 9900
    let snap = make_snapshot(vec![(9975, 1)], vec![(10_025, 1)]);
    let config = ValidationConfig { max_spread_bps: 50, max_mid_move_bps: 101 };
    assert_eq!(validate(&snap, Some(9900), &config), ValidationResult::Pass);
    let config = ValidationConfig { max_spread_bps: 49, max_mid_move_bps: 100 };
    assert_eq!(
        validate(&snap, Some(9900), &config),
        ValidationResult::Warn(vec![
            ValidationWarning::AbnormalSpread { spread_bps: 50, threshold_bps: 49 },
            ValidationWarning::LargePrice { mid_move_bps: 101, threshold_bps: 100 },
        ])
    );
}

#[test]
fn warns_on_each_empty_side() {
    let config = ValidationConfig::default();
    assert_eq!(config.max_spread_bps, 500);
    assert_eq!(config.max_mid_move_bps, 200);
    assert_eq!(
        validate(&make_snapshot(vec![], vec![(1, 1)]), Some(5), &config),
        ValidationResult::Warn(vec![ValidationWarning::OneSideEmpty { side: "bids" }])
    );
    assert_eq!(
        validate(&make_snapshot(vec![(1, 1)], vec![]), Some(5), &config),
        ValidationResult::Warn(vec![ValidationWarning::OneSideEmpty { side: "asks" }])
    );
}

#[test]
fn prices_around_zero_raise_no_price_warning() {
    let config = ValidationConfig { max_spread_bps: 0, max_mid_move_bps: 0 };
    assert_eq!(
        validate(&make_snapshot(vec![(-100, 1)], vec![(100, 1)]), Some(50), &config),
        ValidationResult::Pass
    );
    let config = ValidationConfig { max_spread_bps: 30_000, max_mid_move_bps: 0 };
    assert_eq!(
        validate(&make_snapshot(vec![(100, 1)], vec![(200, 1)]), Some(-50), &config),
        ValidationResult::Pass
    );
}

#[test]
fn thresholds_do_not_reject() {
    let config = ValidationConfig { max_spread_bps: i64::MIN, max_mid_move_bps: i64::MIN };
    let snap = make_snapshot(vec![(100, 1)], vec![(200, 1)]);
    assert!(matches!(validate(&snap, Some(1), &config), ValidationResult::Warn(_)));
}

#[test]
fn range_of_the_checks() {
    let limit = i64::MAX / 10_000;
    assert!(can_validate(&make_snapshot(vec![(1, 1)], vec![(1 + limit, 1)]), None));
    assert!(!can_validate(&make_snapshot(vec![(1, 1)], vec![(2 + limit, 1)]), None));
    // the mid price is 11
    assert!(can_validate(&make_snapshot(vec![(10, 1)], vec![(12, 1)]), Some(11 + limit)));
    assert!(!can_validate(&make_snapshot(vec![(10, 1)], vec![(12, 1)]), Some(12 + limit)));
    assert!(can_validate(&make_snapshot(vec![(10, 1)], vec![(12, 1)]), Some(i64::MIN)));
    assert!(!can_validate(&make_snapshot(vec![(i64::MIN, 1)], vec![(-1, 1)]), None));
}

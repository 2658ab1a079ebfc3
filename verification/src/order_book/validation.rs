//! Checks on a snapshot before it is published.
use crate::order_book::{best, half, BookSnapshot, PriceLevel};
use crate::types::{in_i64, Price};
use vstd::prelude::*;

verus! {

/// Result of the checks on a snapshot.
#[derive(Debug, PartialEq)]
pub enum ValidationResult {
    /// The snapshot is valid: publish it.
    Pass,
    /// The snapshot has anomalies but is usable: publish it with a warning.
    Warn(Vec<ValidationWarning>),
    /// The snapshot is invalid: do not publish it, and mark the book as invalid.
    Reject(ValidationRejection),
}

#[derive(Debug, PartialEq)]
pub enum ValidationWarning {
    OneSideEmpty { side: &'static str },
    AbnormalSpread { spread_bps: i64, threshold_bps: i64 },
    LargePrice { mid_move_bps: i64, threshold_bps: i64 },
    NegativeQuantityDropped { count: usize },
    SortOrderViolated,
}

#[derive(Debug, PartialEq)]
pub enum ValidationRejection {
    CrossedBook { best_bid: i64, best_ask: i64 },
    BothSidesEmpty,
}

pub struct ValidationConfig {
    /// Largest spread, in basis points of the mid price, that raises no warning.
    pub max_spread_bps: i64,
    /// Largest move of the mid price since the last snapshot, in basis points, that raises no
    /// warning.
    pub max_mid_move_bps: i64,
}

impl Default for ValidationConfig {
    fn default() -> (config: Self)
        ensures
            config == default_config(),
    {
        ValidationConfig { max_spread_bps: 500, max_mid_move_bps: 200 }
    }
}

/// A spread of five percent or a move of two percent is still unsuspicious.
pub open spec fn default_config() -> ValidationConfig {
    ValidationConfig { max_spread_bps: 500, max_mid_move_bps: 200 }
}

/// A `ValidationResult` with its warnings as a sequence.
pub enum Verdict {
    Pass,
    Warn(Seq<ValidationWarning>),
    Reject(ValidationRejection),
}

impl View for ValidationResult {
    type V = Verdict;

    open spec fn view(&self) -> Verdict {
        match *self {
            ValidationResult::Pass => Verdict::Pass,
            ValidationResult::Warn(warnings) => Verdict::Warn(warnings@),
            ValidationResult::Reject(rejection) => Verdict::Reject(rejection),
        }
    }
}

/// The spread in basis points of the mid price.
pub open spec fn spread_bps(bid: Price, ask: Price) -> int {
    (ask - bid) * 10_000 / half(bid + ask)
}

/// The distance from the last mid price to the new one, in basis points of the last.
pub open spec fn move_bps(mid: int, last: Price) -> int {
    (if mid >= last {
        mid - last
    } else {
        last - mid
    }) * 10_000 / last as int
}

/// Warnings about a side without levels.
pub open spec fn empty_side_warnings(
    bids: Seq<PriceLevel>,
    asks: Seq<PriceLevel>,
) -> Seq<ValidationWarning> {
    (if bids.len() == 0 {
        seq![ValidationWarning::OneSideEmpty { side: "bids" }]
    } else {
        seq![]
    }) + (if asks.len() == 0 {
        seq![ValidationWarning::OneSideEmpty { side: "asks" }]
    } else {
        seq![]
    })
}

/// Warnings about the best prices: they come where both sides have levels and the mid price
/// is positive, and the one about a move also needs a positive last mid price.
pub open spec fn price_warnings(
    bids: Seq<PriceLevel>,
    asks: Seq<PriceLevel>,
    last_mid: Option<Price>,
    config: ValidationConfig,
) -> Seq<ValidationWarning> {
    match (best(bids), best(asks)) {
        (Some(bid), Some(ask)) => {
            let mid = half(bid + ask);
            if mid > 0 {
                (if spread_bps(bid, ask) > config.max_spread_bps {
                    seq![
                        ValidationWarning::AbnormalSpread {
                            spread_bps: spread_bps(bid, ask) as i64,
                            threshold_bps: config.max_spread_bps,
                        },
                    ]
                } else {
                    seq![]
                }) + (match last_mid {
                    Some(last) => if last > 0 && move_bps(mid, last) > config.max_mid_move_bps {
                        seq![
                            ValidationWarning::LargePrice {
                                mid_move_bps: move_bps(mid, last) as i64,
                                threshold_bps: config.max_mid_move_bps,
                            },
                        ]
                    } else {
                        seq![]
                    },
                    None => seq![],
                })
            } else {
                seq![]
            }
        },
        _ => seq![],
    }
}

/// All warnings about the two sides of a snapshot, in the order in which they are raised.
pub open spec fn warnings_about(
    bids: Seq<PriceLevel>,
    asks: Seq<PriceLevel>,
    last_mid: Option<Price>,
    config: ValidationConfig,
) -> Seq<ValidationWarning> {
    empty_side_warnings(bids, asks) + price_warnings(bids, asks, last_mid, config)
}

/// The best bid is not below the best ask.
pub open spec fn crossed(bids: Seq<PriceLevel>, asks: Seq<PriceLevel>) -> bool {
    match (best(bids), best(asks)) {
        (Some(bid), Some(ask)) => bid >= ask,
        _ => false,
    }
}

/// Why the two sides of a snapshot cannot be published, if they cannot.
pub open spec fn rejection(
    bids: Seq<PriceLevel>,
    asks: Seq<PriceLevel>,
) -> Option<ValidationRejection> {
    if bids.len() == 0 && asks.len() == 0 {
        Some(ValidationRejection::BothSidesEmpty)
    } else if crossed(bids, asks) {
        Some(
            ValidationRejection::CrossedBook {
                best_bid: best(bids).unwrap(),
                best_ask: best(asks).unwrap(),
            },
        )
    } else {
        None
    }
}

/// What the checks say of the two sides of a snapshot.
pub open spec fn verdict(
    bids: Seq<PriceLevel>,
    asks: Seq<PriceLevel>,
    last_mid: Option<Price>,
    config: ValidationConfig,
) -> Verdict {
    match rejection(bids, asks) {
        Some(reason) => Verdict::Reject(reason),
        None => {
            let warnings = warnings_about(bids, asks, last_mid, config);
            if warnings.len() == 0 {
                Verdict::Pass
            } else {
                Verdict::Warn(warnings)
            }
        },
    }
}

/// Nothing that the checks have to compute is out of the range of `i64`.
pub open spec fn validation_fits(
    bids: Seq<PriceLevel>,
    asks: Seq<PriceLevel>,
    last_mid: Option<Price>,
) -> bool {
    match (best(bids), best(asks)) {
        (Some(bid), Some(ask)) => bid < ask ==> {
            let mid = half(bid + ask);
            &&& in_i64(bid + ask)
            &&& mid > 0 ==> {
                &&& in_i64((ask - bid) * 10_000)
                &&& last_mid matches Some(last) ==> last > 0 ==> in_i64(
                    (if mid >= last {
                        mid - last
                    } else {
                        last - mid
                    }) * 10_000,
                )
            }
        },
        _ => true,
    }
}

/// Says whether `validate` can be called: nothing that it computes is out of range.
pub fn can_validate(snapshot: &BookSnapshot, last_mid: Option<i64>) -> (fits: bool)
    ensures
        fits == validation_fits(snapshot.bids@, snapshot.asks@, last_mid),
{
    match (snapshot.best_bid(), snapshot.best_ask()) {
        (Some(bid), Some(ask)) => {
            if bid >= ask {
                return true;
            }
            let mid: i64 = match bid.checked_add(ask) {
                Some(sum) => sum / 2,
                None => {
                    return false;
                },
            };
            if mid <= 0 {
                return true;
            }
            let wide: i128 = (ask as i128 - bid as i128) * 10_000;
            if wide > 9_223_372_036_854_775_807 {
                return false;
            }
            match last_mid {
                Some(last) => {
                    if last <= 0 {
                        return true;
                    }
                    let gap: i128 = if mid >= last {
                        mid as i128 - last as i128
                    } else {
                        last as i128 - mid as i128
                    };
                    gap * 10_000 <= 9_223_372_036_854_775_807
                },
                None => true,
            }
        },
        _ => true,
    }
}

/// Runs all checks on a snapshot. `last_mid` is the mid price of the last published one.
pub fn validate(
    snapshot: &BookSnapshot,
    last_mid: Option<i64>,
    config: &ValidationConfig,
) -> (result: ValidationResult)
    requires
        validation_fits(snapshot.bids@, snapshot.asks@, last_mid),
    ensures
        result@ == verdict(snapshot.bids@, snapshot.asks@, last_mid, *config),
{
    if snapshot.bids.is_empty() && snapshot.asks.is_empty() {
        return ValidationResult::Reject(ValidationRejection::BothSidesEmpty);
    }
    let best_bid = snapshot.best_bid();
    let best_ask = snapshot.best_ask();
    if let (Some(bid), Some(ask)) = (best_bid, best_ask) {
        if bid >= ask {
            return ValidationResult::Reject(
                ValidationRejection::CrossedBook { best_bid: bid, best_ask: ask },
            );
        }
    }
    let mut warnings: Vec<ValidationWarning> = Vec::new();
    if snapshot.bids.is_empty() {
        warnings.push(ValidationWarning::OneSideEmpty { side: "bids" });
    }
    if snapshot.asks.is_empty() {
        warnings.push(ValidationWarning::OneSideEmpty { side: "asks" });
    }
    assert(warnings@ =~= empty_side_warnings(snapshot.bids@, snapshot.asks@));
    if let (Some(bid), Some(ask)) = (best_bid, best_ask) {
        let mid: i64 = (bid + ask) / 2;
        if mid > 0 {
            let spread: i64 = (ask - bid) * 10_000 / mid;
            if spread > config.max_spread_bps {
                warnings.push(
                    ValidationWarning::AbnormalSpread {
                        spread_bps: spread,
                        threshold_bps: config.max_spread_bps,
                    },
                );
            }
            if let Some(last) = last_mid {
                if last > 0 {
                    let gap: i64 = if mid >= last {
                        mid - last
                    } else {
                        last - mid
                    };
                    let moved: i64 = gap * 10_000 / last;
                    if moved > config.max_mid_move_bps {
                        warnings.push(
                            ValidationWarning::LargePrice {
                                mid_move_bps: moved,
                                threshold_bps: config.max_mid_move_bps,
                            },
                        );
                    }
                }
            }
        }
    }
    assert(warnings@ =~= warnings_about(snapshot.bids@, snapshot.asks@, last_mid, *config));
    if warnings.is_empty() {
        ValidationResult::Pass
    } else {
        ValidationResult::Warn(warnings)
    }
}

} // verus!

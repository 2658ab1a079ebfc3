//! When a snapshot is rejected, and when it raises which warnings.
use crate::order_book::side_laws::law_mid_price_is_halfway;
use crate::order_book::validation::{
    default_config, move_bps, price_warnings, rejection, spread_bps, validation_fits, verdict,
    warnings_about, ValidationConfig, ValidationRejection, ValidationResult, ValidationWarning, Verdict,
};
use crate::order_book::{half, mid_price, PriceLevel};
use crate::types::Price;
use vstd::prelude::*;

verus! {

/// A snapshot is rejected exactly when it has no level at all, or when both sides have levels
/// and the first bid is not below the first ask. The reason tells which, and the two prices.
pub proof fn law_rejected_snapshots(
    bids: Seq<PriceLevel>,
    asks: Seq<PriceLevel>,
    last_mid: Option<Price>,
    config: ValidationConfig,
)
    ensures
        bids.len() == 0 && asks.len() == 0 ==> {
            &&& verdict(bids, asks, last_mid, config) == Verdict::Reject(
                ValidationRejection::BothSidesEmpty,
            )
            &&& rejection(bids, asks) == Some(ValidationRejection::BothSidesEmpty)
        },
        bids.len() > 0 && asks.len() > 0 && bids[0].price >= asks[0].price ==> {
            let reason = ValidationRejection::CrossedBook {
                best_bid: bids[0].price,
                best_ask: asks[0].price,
            };
            &&& verdict(bids, asks, last_mid, config) == Verdict::Reject(reason)
            &&& rejection(bids, asks) == Some(reason)
        },
        bids.len() > 0 && asks.len() == 0 || bids.len() == 0 && asks.len() > 0 || bids.len() > 0
            && asks.len() > 0 && bids[0].price < asks[0].price ==> {
            &&& rejection(bids, asks) is None
            &&& verdict(bids, asks, last_mid, config) is Pass <==> warnings_about(
                bids,
                asks,
                last_mid,
                config,
            ).len() == 0
            &&& warnings_about(bids, asks, last_mid, config).len() > 0 ==> verdict(
                bids,
                asks,
                last_mid,
                config,
            ) == Verdict::Warn(warnings_about(bids, asks, last_mid, config))
        },
{
}

proof fn lemma_quotient(amount: int, base: int)
    requires
        amount >= 0,
        base > 0,
    ensures
        0 <= amount / base <= amount,
        forall|q: int| #![trigger q * base]
            q == amount / base <==> q * base <= amount < (q + 1) * base,
{
    let d = amount / base;
    vstd::arithmetic::div_mod::lemma_fundamental_div_mod(amount, base);
    vstd::arithmetic::div_mod::lemma_mod_bound(amount, base);
    assert(base * d == d * base) by (nonlinear_arith);
    assert((d + 1) * base == d * base + base) by (nonlinear_arith);
    vstd::arithmetic::div_mod::lemma_div_pos_is_pos(amount, base);
    assert(d <= d * base) by (nonlinear_arith)
        requires
            d >= 0,
            base > 0,
    ;
    assert forall|q: int| #![trigger q * base] q == d <==> q * base <= amount < (q + 1)
        * base by {
        if q > d {
            assert(q * base >= (d + 1) * base) by (nonlinear_arith)
                requires
                    q >= d + 1,
                    base > 0,
            ;
        }
        if q < d {
            assert((q + 1) * base <= d * base) by (nonlinear_arith)
                requires
                    q + 1 <= d,
                    base > 0,
            ;
        }
    }
}

/// Which warnings a snapshot raises. One about a side comes exactly where that side is empty.
/// One about the spread comes exactly where both sides have levels, the mid price is positive,
/// and the spread in basis points of it, rounded down, is over the threshold. One about a move
/// comes exactly where the mid price and the last one are positive and the distance between
/// them in basis points of the last one, rounded down, is over the threshold: for a rise and a
/// fall alike, and whatever the spread is. No other warning is raised.
pub proof fn law_raised_warnings(
    bids: Seq<PriceLevel>,
    asks: Seq<PriceLevel>,
    last_mid: Option<Price>,
    config: ValidationConfig,
    bps: i64,
    threshold: i64,
)
    requires
        bids.len() > 0 && asks.len() > 0 ==> {
            &&& bids[0].price < asks[0].price
            &&& i64::MIN <= bids[0].price + asks[0].price <= i64::MAX
            &&& mid_price(bids, asks)->0 > 0 ==> {
                &&& (asks[0].price - bids[0].price) * 10_000 <= i64::MAX
                &&& last_mid matches Some(last) ==> last > 0 ==> {
                    &&& (mid_price(bids, asks)->0 - last) * 10_000 <= i64::MAX
                    &&& (last - mid_price(bids, asks)->0) * 10_000 <= i64::MAX
                }
            }
        },
    ensures
        ({
            let raised = warnings_about(bids, asks, last_mid, config);
            let mid = mid_price(bids, asks)->0;
            let priced = bids.len() > 0 && asks.len() > 0 && mid > 0;
            &&& raised.contains(ValidationWarning::OneSideEmpty { side: "bids" }) <==> bids.len()
                == 0
            &&& raised.contains(ValidationWarning::OneSideEmpty { side: "asks" }) <==> asks.len()
                == 0
            &&& raised.contains(
                ValidationWarning::AbnormalSpread { spread_bps: bps, threshold_bps: threshold },
            ) <==> {
                &&& priced
                &&& threshold == config.max_spread_bps
                &&& bps > threshold
                &&& bps * mid <= (asks[0].price - bids[0].price) * 10_000 < (bps + 1) * mid
            }
            &&& raised.contains(
                ValidationWarning::LargePrice { mid_move_bps: bps, threshold_bps: threshold },
            ) <==> {
                &&& priced
                &&& threshold == config.max_mid_move_bps
                &&& bps > threshold
                &&& last_mid matches Some(last) && last > 0 && {
                    ||| mid >= last && bps * last <= (mid - last) * 10_000 < (bps + 1) * last
                    ||| mid < last && bps * last <= (last - mid) * 10_000 < (bps + 1) * last
                }
            }
        }),
{
    let raised = warnings_about(bids, asks, last_mid, config);
    lemma_warning_places(bids, asks, last_mid, config);
    lemma_warnings_contain(raised);
    if bids.len() > 0 && asks.len() > 0 {
        law_mid_price_is_halfway(bids, asks);
        let bid = bids[0].price;
        let ask = asks[0].price;
        let mid = mid_price(bids, asks)->0;
        assert(mid == half(bid + ask));
        if mid > 0 {
            lemma_quotient((ask - bid) * 10_000, mid as int);
            let s = bps as int;
            assert(s == spread_bps(bid, ask) <==> s * mid <= (ask - bid) * 10_000 < (s + 1) * mid);
            if let Some(last) = last_mid {
                if last > 0 {
                    let gap = if mid >= last {
                        mid - last
                    } else {
                        last - mid
                    };
                    lemma_quotient(gap * 10_000, last as int);
                    assert(s == move_bps(mid as int, last) <==> s * last <= gap * 10_000 < (s + 1)
                        * last);
                }
            }
        }
    }
}

/// A warning of the given kind stands at most once, those about the sides before the one about
/// the spread, and that before the one about a move.
pub proof fn law_order_of_warnings(
    bids: Seq<PriceLevel>,
    asks: Seq<PriceLevel>,
    last_mid: Option<Price>,
    config: ValidationConfig,
)
    ensures
        ({
            let raised = warnings_about(bids, asks, last_mid, config);
            &&& raised.len() <= 2
            &&& forall|i: int|
                0 <= i < raised.len() ==> ((#[trigger] raised[i]) is OneSideEmpty || raised[i] is AbnormalSpread
                    || raised[i] is LargePrice)
            &&& raised.len() == 2 ==> {
                ||| raised[0] == (ValidationWarning::OneSideEmpty { side: "bids" }) && raised[1]
                    == (ValidationWarning::OneSideEmpty { side: "asks" })
                ||| raised[0] is AbnormalSpread && raised[1] is LargePrice
            }
        }),
{
    lemma_warning_places(bids, asks, last_mid, config);
}

proof fn lemma_warning_places(
    bids: Seq<PriceLevel>,
    asks: Seq<PriceLevel>,
    last_mid: Option<Price>,
    config: ValidationConfig,
)
    ensures
        ({
            let raised = warnings_about(bids, asks, last_mid, config);
            let empty_bids = ValidationWarning::OneSideEmpty { side: "bids" };
            let empty_asks = ValidationWarning::OneSideEmpty { side: "asks" };
            &&& bids.len() == 0 && asks.len() == 0 ==> raised == seq![empty_bids, empty_asks]
            &&& bids.len() == 0 && asks.len() > 0 ==> raised == seq![empty_bids]
            &&& bids.len() > 0 && asks.len() == 0 ==> raised == seq![empty_asks]
            &&& bids.len() > 0 && asks.len() > 0 ==> raised == price_warnings(
                bids,
                asks,
                last_mid,
                config,
            )
            &&& empty_bids != empty_asks
        }),
{
    reveal_strlit("bids");
    reveal_strlit("asks");
    assert("bids"@[0] != "asks"@[0]);
    let raised = warnings_about(bids, asks, last_mid, config);
    let empty_bids = ValidationWarning::OneSideEmpty { side: "bids" };
    let empty_asks = ValidationWarning::OneSideEmpty { side: "asks" };
    if bids.len() == 0 && asks.len() == 0 {
        assert(raised =~= seq![empty_bids, empty_asks]);
    } else if bids.len() == 0 {
        assert(raised =~= seq![empty_bids]);
    } else if asks.len() == 0 {
        assert(raised =~= seq![empty_asks]);
    } else {
        assert(raised =~= price_warnings(bids, asks, last_mid, config));
    }
}

proof fn lemma_warnings_contain(raised: Seq<ValidationWarning>)
    requires
        raised.len() <= 2,
    ensures
        forall|w: ValidationWarning| #[trigger]
            raised.contains(w) <==> (raised.len() > 0 && raised[0] == w || raised.len() > 1
                && raised[1] == w),
{
    assert forall|w: ValidationWarning| #[trigger]
        raised.contains(w) <==> (raised.len() > 0 && raised[0] == w || raised.len() > 1
            && raised[1] == w) by {
        if raised.contains(w) {
            let i = choose|i: int| 0 <= i < raised.len() && raised[i] == w;
            assert(i == 0 || i == 1);
        }
    }
}

/// The checks are within range exactly when nothing has to be computed for them, or an `i64`
/// can hold the sum of the best prices and, where the mid price is positive, the spread and the
/// distance from a positive last mid price in units of a ten-thousandth.
pub proof fn law_checks_fit(
    bids: Seq<PriceLevel>,
    asks: Seq<PriceLevel>,
    last_mid: Option<Price>,
)
    ensures
        validation_fits(bids, asks, last_mid) <==> {
            ||| bids.len() == 0
            ||| asks.len() == 0
            ||| bids[0].price >= asks[0].price
            ||| {
                let sum = bids[0].price + asks[0].price;
                &&& i64::MIN <= sum <= i64::MAX
                &&& sum >= 2 ==> {
                    &&& (asks[0].price - bids[0].price) * 10_000 <= i64::MAX
                    &&& last_mid matches Some(last) ==> last > 0 ==> {
                        &&& (sum / 2 - last) * 10_000 <= i64::MAX
                        &&& (last - sum / 2) * 10_000 <= i64::MAX
                    }
                }
            }
        },
{
}

/// A result stands for its warnings or its reason.
pub proof fn law_result_shows_its_fields(
    warnings: Vec<ValidationWarning>,
    reason: ValidationRejection,
)
    ensures
        ValidationResult::Pass@ == Verdict::Pass,
        ValidationResult::Warn(warnings)@ == Verdict::Warn(warnings@),
        ValidationResult::Reject(reason)@ == Verdict::Reject(reason),
{
}

/// By default a spread of up to five percent and a move of up to two percent raise no warning.
pub proof fn law_default_thresholds()
    ensures
        default_config().max_spread_bps == 500,
        default_config().max_mid_move_bps == 200,
{
}

} // verus!

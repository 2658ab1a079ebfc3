//! What holds of one side of a book, level by level: ranking, publishing, the figures of a
//! snapshot, and incremental changes.
use crate::order_book::delta::{first_at, with_change, with_changes};
use crate::order_book::ranking::{
    law_positive_keeps_rank, law_ranked_is_ranked, law_ranked_is_stable, levels_at, positive, ranked,
};
use crate::order_book::validation::crossed;
use crate::order_book::{
    best, half, mid_fits, mid_price, published, spread_fits, top, BookSnapshot, PriceLevel,
};
use crate::types::{Price, Side};
use vstd::prelude::*;

verus! {

/// The levels at a price are those that are picked by their price.
pub proof fn law_levels_at_picks_by_price(levels: Seq<PriceLevel>, price: Price)
    ensures
        levels_at(levels, price) == levels.filter(|level: PriceLevel| level.price == price),
    decreases levels.len(),
{
    reveal(Seq::filter);
    if levels.len() > 0 {
        law_levels_at_picks_by_price(levels.drop_last(), price);
    }
}

/// The positive levels are those that are picked by their quantity.
pub proof fn law_positive_picks_by_quantity(levels: Seq<PriceLevel>)
    ensures
        positive(levels) == levels.filter(|level: PriceLevel| level.quantity > 0),
    decreases levels.len(),
{
    reveal(Seq::filter);
    if levels.len() > 0 {
        law_positive_picks_by_quantity(levels.drop_last());
    }
}

proof fn lemma_positive_at(levels: Seq<PriceLevel>, price: Price)
    ensures
        positive(levels_at(levels, price)) == levels.filter(
            |level: PriceLevel| level.price == price && level.quantity > 0,
        ),
    decreases levels.len(),
{
    reveal(Seq::filter);
    if levels.len() > 0 {
        lemma_positive_at(levels.drop_last(), price);
        if levels.last().price == price {
            assert(levels_at(levels, price).drop_last() =~= levels_at(levels.drop_last(), price));
        }
    }
}

/// Ranked bids fall in price and ranked asks rise, and at each price they are the levels that
/// were there, in the order in which they came.
pub proof fn law_ranking_sorts_by_price(levels: Seq<PriceLevel>, price: Price)
    ensures
        ranked(Side::Buy, levels).len() == levels.len(),
        ranked(Side::Sell, levels).len() == levels.len(),
        forall|i: int, j: int|
            0 <= i < j < levels.len() ==> (#[trigger] ranked(Side::Buy, levels)[i]).price >= (
            #[trigger] ranked(Side::Buy, levels)[j]).price,
        forall|i: int, j: int|
            0 <= i < j < levels.len() ==> (#[trigger] ranked(Side::Sell, levels)[i]).price <= (
            #[trigger] ranked(Side::Sell, levels)[j]).price,
        ranked(Side::Buy, levels).filter(|level: PriceLevel| level.price == price)
            == levels.filter(|level: PriceLevel| level.price == price),
        ranked(Side::Sell, levels).filter(|level: PriceLevel| level.price == price)
            == levels.filter(|level: PriceLevel| level.price == price),
{
    law_ranked_is_ranked(Side::Buy, levels);
    law_ranked_is_ranked(Side::Sell, levels);
    law_ranked_is_stable(Side::Buy, levels, price);
    law_ranked_is_stable(Side::Sell, levels, price);
    law_levels_at_picks_by_price(levels, price);
    law_levels_at_picks_by_price(ranked(Side::Buy, levels), price);
    law_levels_at_picks_by_price(ranked(Side::Sell, levels), price);
}

/// Published bids fall in price and published asks rise, and at each price they are the
/// levels with a positive quantity that were there, in the order in which they came.
pub proof fn law_publishing_sorts_positive_levels(levels: Seq<PriceLevel>, price: Price)
    ensures
        forall|i: int, j: int|
            0 <= i < j < published(Side::Buy, levels).len() ==> (#[trigger] published(
                Side::Buy,
                levels,
            )[i]).price >= (#[trigger] published(Side::Buy, levels)[j]).price,
        forall|i: int, j: int|
            0 <= i < j < published(Side::Sell, levels).len() ==> (#[trigger] published(
                Side::Sell,
                levels,
            )[i]).price <= (#[trigger] published(Side::Sell, levels)[j]).price,
        published(Side::Buy, levels).filter(|level: PriceLevel| level.price == price)
            == levels.filter(|level: PriceLevel| level.price == price && level.quantity > 0),
        published(Side::Sell, levels).filter(|level: PriceLevel| level.price == price)
            == levels.filter(|level: PriceLevel| level.price == price && level.quantity > 0),
{
    law_ranked_is_ranked(Side::Buy, levels);
    law_ranked_is_ranked(Side::Sell, levels);
    law_positive_keeps_rank(Side::Buy, ranked(Side::Buy, levels));
    law_positive_keeps_rank(Side::Sell, ranked(Side::Sell, levels));
    law_ranked_is_stable(Side::Buy, levels, price);
    law_ranked_is_stable(Side::Sell, levels, price);
    law_levels_at_picks_by_price(published(Side::Buy, levels), price);
    law_levels_at_picks_by_price(published(Side::Sell, levels), price);
    lemma_positive_at(levels, price);
}

/// Publishing loses no positive level and adds none.
pub proof fn law_published_levels_are_the_positive_ones(
    side: Side,
    levels: Seq<PriceLevel>,
    level: PriceLevel,
)
    ensures
        published(side, levels).contains(level) <==> levels.contains(level) && level.quantity > 0,
{
    let price = level.price;
    let at = |l: PriceLevel| l.price == price;
    let positive_at = |l: PriceLevel| l.price == price && l.quantity > 0;
    let shown = published(side, levels);
    law_publishing_sorts_positive_levels(levels, price);
    assert(shown.filter(at) == levels.filter(positive_at));
    shown.filter_lemma(at);
    levels.filter_lemma(positive_at);
    lemma_filter_contains(shown, at, level);
    lemma_filter_contains(levels, positive_at, level);
}

proof fn lemma_filter_contains(
    levels: Seq<PriceLevel>,
    pick: spec_fn(PriceLevel) -> bool,
    level: PriceLevel,
)
    ensures
        levels.filter(pick).contains(level) <==> levels.contains(level) && pick(level),
    decreases levels.len(),
{
    reveal(Seq::filter);
    if levels.len() > 0 {
        let front = levels.drop_last();
        lemma_filter_contains(front, pick, level);
        assert(levels =~= front.push(levels.last()));
        lemma_push_contains(front, levels.last(), level);
        lemma_push_contains(front.filter(pick), levels.last(), level);
    }
}

proof fn lemma_push_contains(levels: Seq<PriceLevel>, last: PriceLevel, level: PriceLevel)
    ensures
        levels.push(last).contains(level) <==> levels.contains(level) || level == last,
{
    let all = levels.push(last);
    if levels.contains(level) {
        let i = choose|i: int| 0 <= i < levels.len() && levels[i] == level;
        assert(all[i] == level);
    }
    if level == last {
        assert(all[levels.len() as int] == level);
    }
    if all.contains(level) {
        let i = choose|i: int| 0 <= i < all.len() && all[i] == level;
        if i < levels.len() {
            assert(levels[i] == level);
        }
    }
}

/// The best published bid is the highest price with a positive bid, and the best published
/// ask is the lowest price with a positive ask. There is none where no quantity is positive.
pub proof fn law_best_published_price(side: Side, levels: Seq<PriceLevel>)
    ensures
        match best(published(side, levels)) {
            Some(price) => {
                &&& exists|i: int|
                    0 <= i < levels.len() && (#[trigger] levels[i]).price == price
                        && levels[i].quantity > 0
                &&& forall|i: int|
                    0 <= i < levels.len() && (#[trigger] levels[i]).quantity > 0 ==> match side {
                        Side::Buy => levels[i].price <= price,
                        Side::Sell => levels[i].price >= price,
                    }
            },
            None => forall|i: int|
                0 <= i < levels.len() ==> (#[trigger] levels[i]).quantity <= 0,
        },
{
    let shown = published(side, levels);
    law_publishing_sorts_positive_levels(levels, 0);
    if shown.len() > 0 {
        law_published_levels_are_the_positive_ones(side, levels, shown[0]);
        assert(shown.contains(shown[0]));
        let k = choose|k: int| 0 <= k < levels.len() && levels[k] == shown[0];
        assert(levels[k].price == shown[0].price);
    }
    assert forall|i: int| 0 <= i < levels.len() && (#[trigger] levels[i]).quantity > 0 implies
        shown.len() > 0 && match side {
        Side::Buy => levels[i].price <= shown[0].price,
        Side::Sell => levels[i].price >= shown[0].price,
    } by {
        law_published_levels_are_the_positive_ones(side, levels, levels[i]);
        assert(levels.contains(levels[i]));
        let k = choose|k: int| 0 <= k < shown.len() && shown[k] == levels[i];
        if k > 0 {
            let first = shown[0];
            let other = shown[k];
            assert(match side {
                Side::Buy => first.price >= other.price,
                Side::Sell => first.price <= other.price,
            });
        }
    }
}

/// The best price is that of the first level.
pub proof fn law_best_is_the_first(levels: Seq<PriceLevel>)
    ensures
        levels.len() == 0 ==> best(levels) is None,
        levels.len() > 0 ==> best(levels) == Some(levels[0].price),
{
}

/// Half of a number falls short of it by half a unit at most, and never goes past it.
pub proof fn law_half_rounds_towards_zero(x: int)
    ensures
        x >= 0 ==> 0 <= x - 2 * half(x) <= 1,
        x < 0 ==> -1 <= x - 2 * half(x) <= 0,
{
}

/// The mid price lies halfway between the best prices, rounded towards zero; it takes both.
pub proof fn law_mid_price_is_halfway(bids: Seq<PriceLevel>, asks: Seq<PriceLevel>)
    requires
        bids.len() > 0 && asks.len() > 0 ==> i64::MIN <= bids[0].price + asks[0].price
            <= i64::MAX,
    ensures
        bids.len() == 0 || asks.len() == 0 ==> mid_price(bids, asks) is None,
        bids.len() > 0 && asks.len() > 0 ==> {
            let sum = bids[0].price + asks[0].price;
            &&& mid_price(bids, asks) is Some
            &&& sum >= 0 ==> 0 <= sum - 2 * mid_price(bids, asks)->0 <= 1
            &&& sum < 0 ==> -1 <= sum - 2 * mid_price(bids, asks)->0 <= 0
        },
{
}

/// The mid price and the spread are within range exactly when an `i64` can hold the sum and
/// the difference of the best prices.
pub proof fn law_figures_fit(bids: Seq<PriceLevel>, asks: Seq<PriceLevel>)
    ensures
        mid_fits(bids, asks) <==> (bids.len() == 0 || asks.len() == 0 || i64::MIN <= bids[0].price
            + asks[0].price <= i64::MAX),
        spread_fits(bids, asks) <==> (bids.len() == 0 || asks.len() == 0 || i64::MIN
            <= asks[0].price - bids[0].price <= i64::MAX),
{
}

/// The top of a side are its first levels, as many as asked for or as there are.
pub proof fn law_top_is_a_prefix(levels: Seq<PriceLevel>, n: nat)
    ensures
        top(levels, n).len() == if n <= levels.len() {
            n
        } else {
            levels.len()
        },
        forall|i: int| 0 <= i < top(levels, n).len() ==> #[trigger] top(levels, n)[i] == levels[i],
{
}

/// Sides are crossed exactly when both have levels and the first bid is not below the first
/// ask.
pub proof fn law_crossed_sides(bids: Seq<PriceLevel>, asks: Seq<PriceLevel>)
    ensures
        crossed(bids, asks) <==> bids.len() > 0 && asks.len() > 0 && bids[0].price
            >= asks[0].price,
{
}

/// Published sides are crossed exactly when some positive bid is not below some positive ask.
pub proof fn law_crossed_when_some_levels_cross(bids: Seq<PriceLevel>, asks: Seq<PriceLevel>)
    ensures
        crossed(published(Side::Buy, bids), published(Side::Sell, asks)) <==> exists|
            i: int,
            j: int,
        |
            0 <= i < bids.len() && 0 <= j < asks.len() && (#[trigger] bids[i]).quantity > 0 && (
            #[trigger] asks[j]).quantity > 0 && bids[i].price >= asks[j].price,
{
    law_best_published_price(Side::Buy, bids);
    law_best_published_price(Side::Sell, asks);
    let b = published(Side::Buy, bids);
    let a = published(Side::Sell, asks);
    if crossed(b, a) {
        let i = choose|i: int|
            0 <= i < bids.len() && (#[trigger] bids[i]).price == best(b)->0 && bids[i].quantity
                > 0;
        let j = choose|j: int|
            0 <= j < asks.len() && (#[trigger] asks[j]).price == best(a)->0 && asks[j].quantity
                > 0;
        assert(bids[i].price >= asks[j].price);
    }
}

/// A snapshot stands for its levels, its instrument and its number.
pub proof fn law_snapshot_shows_its_fields(snapshot: BookSnapshot)
    ensures
        snapshot@.bids == snapshot.bids@,
        snapshot@.asks == snapshot.asks@,
        snapshot@.instrument == snapshot.instrument@,
        snapshot@.sequence == snapshot.sequence,
{
}

// Incremental changes

proof fn lemma_first_at_is(levels: Seq<PriceLevel>, price: Price, at: int)
    requires
        0 <= at <= levels.len(),
        at < levels.len() ==> levels[at].price == price,
        forall|k: int| 0 <= k < at ==> (#[trigger] levels[k]).price != price,
    ensures
        first_at(levels, price) == at,
    decreases levels.len(),
{
    if at > 0 {
        assert(levels[0].price != price);
        let rest = levels.skip(1);
        assert forall|k: int| 0 <= k < at - 1 implies (#[trigger] rest[k]).price != price by {
            assert(rest[k] == levels[k + 1]);
        }
        lemma_first_at_is(rest, price, at - 1);
    }
}

/// A change at a price that has a level acts on the first one there: quantity zero takes it
/// away, another quantity takes its place, and all other levels stay where they are.
pub proof fn law_change_acts_on_first_level(
    levels: Seq<PriceLevel>,
    change: PriceLevel,
    at: int,
)
    requires
        0 <= at < levels.len(),
        levels[at].price == change.price,
        forall|k: int| 0 <= k < at ==> (#[trigger] levels[k]).price != change.price,
    ensures
        change.quantity == 0 ==> with_change(levels, change) == levels.take(at) + levels.skip(
            at + 1,
        ),
        change.quantity != 0 ==> with_change(levels, change) == levels.take(at).push(change)
            + levels.skip(at + 1),
{
    lemma_first_at_is(levels, change.price, at);
    assert(levels.remove(at) =~= levels.take(at) + levels.skip(at + 1));
    assert(levels.update(at, change) =~= levels.take(at).push(change) + levels.skip(at + 1));
}

/// A change at a price without levels adds one where its quantity is positive, and is no
/// change otherwise.
pub proof fn law_change_at_new_price(levels: Seq<PriceLevel>, change: PriceLevel)
    requires
        forall|k: int| 0 <= k < levels.len() ==> (#[trigger] levels[k]).price != change.price,
    ensures
        change.quantity > 0 ==> with_change(levels, change) == levels.push(change),
        change.quantity <= 0 ==> with_change(levels, change) == levels,
{
    lemma_first_at_is(levels, change.price, levels.len() as int);
}

/// A run of changes is one change after the other.
pub proof fn law_changes_come_one_by_one(
    levels: Seq<PriceLevel>,
    changes: Seq<PriceLevel>,
    change: PriceLevel,
)
    ensures
        with_changes(levels, Seq::empty()) == levels,
        with_changes(levels, changes.push(change)) == with_change(
            with_changes(levels, changes),
            change,
        ),
{
    assert(changes.push(change).drop_last() =~= changes);
}

} // verus!

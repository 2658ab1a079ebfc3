//! The order of price levels on one side of a book: the best price comes first, and levels at
//! one price keep the order in which they came.
use crate::order_book::PriceLevel;
use crate::types::{Price, Side};
use vstd::prelude::*;

verus! {

/// Price `a` is strictly better than price `b` on this side: higher for bids (`Buy`), lower
/// for asks (`Sell`).
pub open spec fn beats(side: Side, a: Price, b: Price) -> bool {
    match side {
        Side::Buy => a > b,
        Side::Sell => a < b,
    }
}

/// No level comes before a level with a better price.
pub open spec fn is_ranked(side: Side, levels: Seq<PriceLevel>) -> bool {
    forall|i: int, j: int|
        0 <= i < j < levels.len() ==> !beats(
            side,
            (#[trigger] levels[j]).price,
            (#[trigger] levels[i]).price,
        )
}

/// The place for a price in ranked levels: behind every level that it does not beat.
pub open spec fn slot(side: Side, levels: Seq<PriceLevel>, price: Price) -> int
    decreases levels.len(),
{
    if levels.len() == 0 || !beats(side, price, levels.last().price) {
        levels.len() as int
    } else {
        slot(side, levels.drop_last(), price)
    }
}

/// The same levels from the best price to the worst, those at one price in their old order.
pub open spec fn ranked(side: Side, levels: Seq<PriceLevel>) -> Seq<PriceLevel>
    decreases levels.len(),
{
    if levels.len() == 0 {
        levels
    } else {
        let front = ranked(side, levels.drop_last());
        front.insert(slot(side, front, levels.last().price), levels.last())
    }
}

/// The levels whose quantity is positive, in their old order.
pub open spec fn positive(levels: Seq<PriceLevel>) -> Seq<PriceLevel>
    decreases levels.len(),
{
    if levels.len() == 0 {
        levels
    } else if levels.last().quantity > 0 {
        positive(levels.drop_last()).push(levels.last())
    } else {
        positive(levels.drop_last())
    }
}

/// The levels at one price, in their old order.
pub open spec fn levels_at(levels: Seq<PriceLevel>, price: Price) -> Seq<PriceLevel>
    decreases levels.len(),
{
    if levels.len() == 0 {
        levels
    } else if levels.last().price == price {
        levels_at(levels.drop_last(), price).push(levels.last())
    } else {
        levels_at(levels.drop_last(), price)
    }
}

proof fn lemma_slot(side: Side, levels: Seq<PriceLevel>, price: Price)
    requires
        is_ranked(side, levels),
    ensures
        0 <= slot(side, levels, price) <= levels.len(),
        forall|i: int|
            0 <= i < slot(side, levels, price) ==> !beats(
                side,
                price,
                (#[trigger] levels[i]).price,
            ),
        forall|i: int|
            slot(side, levels, price) <= i < levels.len() ==> beats(
                side,
                price,
                (#[trigger] levels[i]).price,
            ),
    decreases levels.len(),
{
    if levels.len() > 0 {
        let n = levels.len() - 1;
        let front = levels.drop_last();
        assert(forall|i: int| 0 <= i < n ==> levels[i] == #[trigger] front[i]);
        if beats(side, price, levels.last().price) {
            lemma_slot(side, front, price);
        }
        assert(levels[n] == levels.last());
        assert forall|i: int| 0 <= i < slot(side, levels, price) implies !beats(
            side,
            price,
            (#[trigger] levels[i]).price,
        ) by {
            if i < n {
                assert(front[i] == levels[i]);
            }
        }
        assert forall|i: int| slot(side, levels, price) <= i < levels.len() implies beats(
            side,
            price,
            (#[trigger] levels[i]).price,
        ) by {
            if i < n {
                assert(front[i] == levels[i]);
            }
        }
    }
}

proof fn lemma_insert_keeps_rank(side: Side, levels: Seq<PriceLevel>, level: PriceLevel)
    requires
        is_ranked(side, levels),
    ensures
        is_ranked(side, levels.insert(slot(side, levels, level.price), level)),
{
    lemma_slot(side, levels, level.price);
    let at = slot(side, levels, level.price);
    let all = levels.insert(at, level);
    assert forall|i: int, j: int| 0 <= i < j < all.len() implies !beats(
        side,
        (#[trigger] all[j]).price,
        (#[trigger] all[i]).price,
    ) by {
        let a = if i < at { levels[i] } else if i == at { level } else { levels[i - 1] };
        let b = if j < at { levels[j] } else if j == at { level } else { levels[j - 1] };
        assert(all[i] == a && all[j] == b);
    }
}

proof fn lemma_levels_at_insert(levels: Seq<PriceLevel>, at: int, level: PriceLevel, price: Price)
    requires
        0 <= at <= levels.len(),
        forall|i: int| at <= i < levels.len() ==> (#[trigger] levels[i]).price != level.price,
    ensures
        levels_at(levels.insert(at, level), price) == if level.price == price {
            levels_at(levels, price).push(level)
        } else {
            levels_at(levels, price)
        },
    decreases levels.len(),
{
    let all = levels.insert(at, level);
    if at == levels.len() {
        assert(all.drop_last() =~= levels);
    } else {
        let front = levels.drop_last();
        assert(all.drop_last() =~= front.insert(at, level));
        assert(all.last() == levels.last());
        assert(levels[levels.len() - 1].price != level.price);
        assert forall|i: int| at <= i < front.len() implies (#[trigger] front[i]).price
            != level.price by {
            assert(front[i] == levels[i]);
        }
        lemma_levels_at_insert(front, at, level, price);
    }
}

/// Ranking leaves no level before a better one.
pub proof fn law_ranked_is_ranked(side: Side, levels: Seq<PriceLevel>)
    ensures
        is_ranked(side, ranked(side, levels)),
        ranked(side, levels).len() == levels.len(),
    decreases levels.len(),
{
    if levels.len() > 0 {
        let front = ranked(side, levels.drop_last());
        law_ranked_is_ranked(side, levels.drop_last());
        lemma_slot(side, front, levels.last().price);
        lemma_insert_keeps_rank(side, front, levels.last());
    }
}

/// Ranking loses no level and adds none, and it keeps the order of levels at one price.
pub proof fn law_ranked_is_stable(side: Side, levels: Seq<PriceLevel>, price: Price)
    ensures
        levels_at(ranked(side, levels), price) == levels_at(levels, price),
    decreases levels.len(),
{
    if levels.len() > 0 {
        let front = ranked(side, levels.drop_last());
        law_ranked_is_stable(side, levels.drop_last(), price);
        law_ranked_is_ranked(side, levels.drop_last());
        lemma_slot(side, front, levels.last().price);
        lemma_levels_at_insert(front, slot(side, front, levels.last().price), levels.last(), price);
    }
}

proof fn lemma_levels_at_member(levels: Seq<PriceLevel>, i: int)
    requires
        0 <= i < levels.len(),
    ensures
        levels_at(levels, levels[i].price).len() > 0,
    decreases levels.len(),
{
    if i < levels.len() - 1 {
        lemma_levels_at_member(levels.drop_last(), i);
        assert(levels.drop_last()[i] == levels[i]);
    }
}

proof fn lemma_levels_at_witness(levels: Seq<PriceLevel>, price: Price) -> (i: int)
    requires
        levels_at(levels, price).len() > 0,
    ensures
        0 <= i < levels.len(),
        levels[i].price == price,
    decreases levels.len(),
{
    if levels.last().price == price {
        levels.len() - 1
    } else {
        lemma_levels_at_witness(levels.drop_last(), price)
    }
}

/// There is only one way to rank: ranked levels that agree at every price, order included,
/// are the same levels.
pub proof fn law_rank_is_unique(side: Side, a: Seq<PriceLevel>, b: Seq<PriceLevel>)
    requires
        is_ranked(side, a),
        is_ranked(side, b),
        forall|price: Price| levels_at(a, price) == #[trigger] levels_at(b, price),
    ensures
        a == b,
    decreases a.len(),
{
    if a.len() == 0 {
        if b.len() > 0 {
            lemma_levels_at_member(b, b.len() - 1);
            assert(levels_at(a, b.last().price) == levels_at(b, b.last().price));
        }
        assert(a =~= b);
    } else {
        let last = a.last().price;
        lemma_levels_at_member(a, a.len() - 1);
        assert(levels_at(a, last) == levels_at(b, last));
        let k = lemma_levels_at_witness(b, last);
        lemma_levels_at_member(b, b.len() - 1);
        assert(levels_at(a, b.last().price) == levels_at(b, b.last().price));
        let m = lemma_levels_at_witness(a, b.last().price);
        assert(a[a.len() - 1] == a.last());
        assert(b[b.len() - 1] == b.last());
        assert(b.last().price == last);
        assert(levels_at(a, last).last() == a.last());
        assert(levels_at(b, last).last() == b.last());
        let front_a = a.drop_last();
        let front_b = b.drop_last();
        assert forall|price: Price| levels_at(front_a, price) == #[trigger] levels_at(
            front_b,
            price,
        ) by {
            assert(levels_at(a, price) == levels_at(b, price));
            if price == last {
                assert(levels_at(a, price).drop_last() =~= levels_at(front_a, price));
                assert(levels_at(b, price).drop_last() =~= levels_at(front_b, price));
            }
        }
        assert forall|i: int, j: int| 0 <= i < j < front_a.len() implies !beats(
            side,
            (#[trigger] front_a[j]).price,
            (#[trigger] front_a[i]).price,
        ) by {
            assert(front_a[i] == a[i] && front_a[j] == a[j]);
        }
        assert forall|i: int, j: int| 0 <= i < j < front_b.len() implies !beats(
            side,
            (#[trigger] front_b[j]).price,
            (#[trigger] front_b[i]).price,
        ) by {
            assert(front_b[i] == b[i] && front_b[j] == b[j]);
        }
        law_rank_is_unique(side, front_a, front_b);
        assert(a =~= front_a.push(a.last()));
        assert(b =~= front_b.push(b.last()));
    }
}

/// Ranking again changes nothing.
pub proof fn law_ranking_is_idempotent(side: Side, levels: Seq<PriceLevel>)
    requires
        is_ranked(side, levels),
    ensures
        ranked(side, levels) == levels,
{
    law_ranked_is_ranked(side, levels);
    assert forall|price: Price| levels_at(ranked(side, levels), price) == #[trigger] levels_at(
        levels,
        price,
    ) by {
        law_ranked_is_stable(side, levels, price);
    }
    law_rank_is_unique(side, ranked(side, levels), levels);
}

/// Dropping levels keeps the rank of the others; what is left has positive quantities, and at
/// each price it is what was positive there.
pub proof fn law_positive_keeps_rank(side: Side, levels: Seq<PriceLevel>)
    ensures
        is_ranked(side, levels) ==> is_ranked(side, positive(levels)),
        forall|i: int|
            0 <= i < positive(levels).len() ==> (#[trigger] positive(levels)[i]).quantity > 0,
        forall|i: int|
            0 <= i < positive(levels).len() ==> levels.contains(#[trigger] positive(levels)[i]),
        forall|i: int|
            0 <= i < levels.len() && (#[trigger] levels[i]).quantity > 0 ==> positive(
                levels,
            ).contains(levels[i]),
        forall|price: Price|
            #[trigger] levels_at(positive(levels), price) == positive(levels_at(levels, price)),
        positive(levels).len() <= levels.len(),
    decreases levels.len(),
{
    if levels.len() > 0 {
        let front = levels.drop_last();
        let kept = positive(levels);
        let kept_front = positive(front);
        law_positive_keeps_rank(side, front);
        assert forall|i: int| 0 <= i < kept.len() implies levels.contains(#[trigger] kept[i]) by {
            if i < kept_front.len() {
                assert(kept[i] == kept_front[i]);
                let k = choose|k: int| 0 <= k < front.len() && front[k] == kept_front[i];
                assert(levels[k] == kept[i]);
            } else {
                assert(levels[levels.len() - 1] == kept[i]);
            }
        }
        assert forall|i: int| 0 <= i < levels.len() && (#[trigger] levels[i]).quantity
            > 0 implies kept.contains(levels[i]) by {
            if i < front.len() {
                assert(front[i] == levels[i]);
                let k = choose|k: int| 0 <= k < kept_front.len() && kept_front[k] == front[i];
                assert(kept[k] == levels[i]);
            } else {
                assert(kept[kept.len() - 1] == levels[i]);
            }
        }
        assert forall|price: Price| #[trigger]
            levels_at(kept, price) == positive(levels_at(levels, price)) by {
            assert(levels_at(kept_front, price) == positive(levels_at(front, price)));
            if levels.last().quantity > 0 {
                assert(kept.drop_last() =~= kept_front);
            }
            if levels.last().price == price {
                assert(levels_at(levels, price).drop_last() =~= levels_at(front, price));
            }
        }
        if is_ranked(side, levels) {
            assert forall|i: int, j: int| 0 <= i < j < front.len() implies !beats(
                side,
                (#[trigger] front[j]).price,
                (#[trigger] front[i]).price,
            ) by {
                assert(front[i] == levels[i] && front[j] == levels[j]);
            }
            assert forall|i: int, j: int| 0 <= i < j < kept.len() implies !beats(
                side,
                (#[trigger] kept[j]).price,
                (#[trigger] kept[i]).price,
            ) by {
                if j < kept_front.len() {
                    assert(kept[i] == kept_front[i] && kept[j] == kept_front[j]);
                } else {
                    assert(kept[i] == kept_front[i]);
                    let k = choose|k: int| 0 <= k < front.len() && front[k] == kept_front[i];
                    assert(levels[k] == kept[i]);
                    assert(levels[levels.len() - 1] == kept[j]);
                }
            }
        }
    }
}

fn beats_price(side: Side, a: Price, b: Price) -> (yes: bool)
    ensures
        yes == beats(side, a, b),
{
    match side {
        Side::Buy => a > b,
        Side::Sell => a < b,
    }
}

/// Ranks levels. Each level is put in its place from the worst end on, so levels that come
/// ranked, as a feed sends them, are placed in one step each.
pub fn rank(side: Side, levels: &Vec<PriceLevel>) -> (all: Vec<PriceLevel>)
    ensures
        all@ == ranked(side, levels@),
        is_ranked(side, all@),
{
    let mut all: Vec<PriceLevel> = Vec::new();
    let n: usize = levels.len();
    let mut i: usize = 0;
    while i < n
        invariant
            i <= n == levels@.len(),
            all@ == ranked(side, levels@.take(i as int)),
            all@.len() == i,
        decreases n - i,
    {
        let level = levels[i];
        let mut at: usize = i;
        assert(all@.take(i as int) =~= all@);
        while at > 0 && beats_price(side, level.price, all[at - 1].price)
            invariant
                at <= i == all@.len(),
                slot(side, all@.take(at as int), level.price) == slot(side, all@, level.price),
            decreases at,
        {
            assert(all@.take(at as int).drop_last() =~= all@.take(at - 1));
            at -= 1;
        }
        assert(levels@.take(i + 1).drop_last() =~= levels@.take(i as int));
        all.insert(at, level);
        i += 1;
    }
    assert(levels@.take(n as int) =~= levels@);
    proof {
        law_ranked_is_ranked(side, levels@);
    }
    all
}

/// Keeps the levels whose quantity is positive.
pub fn keep_positive(levels: &Vec<PriceLevel>) -> (kept: Vec<PriceLevel>)
    ensures
        kept@ == positive(levels@),
{
    let mut kept: Vec<PriceLevel> = Vec::new();
    let n: usize = levels.len();
    let mut i: usize = 0;
    while i < n
        invariant
            i <= n == levels@.len(),
            kept@ == positive(levels@.take(i as int)),
        decreases n - i,
    {
        assert(levels@.take(i + 1).drop_last() =~= levels@.take(i as int));
        if levels[i].quantity > 0 {
            kept.push(levels[i]);
        }
        i += 1;
    }
    assert(levels@.take(n as int) =~= levels@);
    kept
}

} // verus!

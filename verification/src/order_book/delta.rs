//! Incremental changes to one side of a book.
use crate::order_book::ranking::levels_at;
use crate::order_book::PriceLevel;
use crate::types::Price;
use vstd::prelude::*;

verus! {

/// The first position of a level at `price`, or the number of levels where there is none.
pub open spec fn first_at(levels: Seq<PriceLevel>, price: Price) -> int
    decreases levels.len(),
{
    if levels.len() == 0 || levels[0].price == price {
        0
    } else {
        1 + first_at(levels.skip(1), price)
    }
}

/// The levels after one change: quantity zero removes the first level at its price, another
/// quantity replaces that level's, and a positive quantity at a new price adds a level.
pub open spec fn with_change(levels: Seq<PriceLevel>, change: PriceLevel) -> Seq<PriceLevel> {
    let at = first_at(levels, change.price);
    if at < levels.len() {
        if change.quantity == 0 {
            levels.remove(at)
        } else {
            levels.update(at, change)
        }
    } else if change.quantity > 0 {
        levels.push(change)
    } else {
        levels
    }
}

/// The levels after a run of changes, first to last.
pub open spec fn with_changes(levels: Seq<PriceLevel>, changes: Seq<PriceLevel>) -> Seq<PriceLevel>
    decreases changes.len(),
{
    if changes.len() == 0 {
        levels
    } else {
        with_change(with_changes(levels, changes.drop_last()), changes.last())
    }
}

/// What one change makes of the levels at its own price.
pub open spec fn queue_with_change(queue: Seq<PriceLevel>, change: PriceLevel) -> Seq<PriceLevel> {
    if queue.len() > 0 {
        if change.quantity == 0 {
            queue.skip(1)
        } else {
            queue.update(0, change)
        }
    } else if change.quantity > 0 {
        seq![change]
    } else {
        queue
    }
}

/// What a run of changes at one price makes of the levels at that price.
pub open spec fn queue_with_changes(
    queue: Seq<PriceLevel>,
    changes: Seq<PriceLevel>,
) -> Seq<PriceLevel>
    decreases changes.len(),
{
    if changes.len() == 0 {
        queue
    } else {
        queue_with_change(queue_with_changes(queue, changes.drop_last()), changes.last())
    }
}

/// No two levels have the same price.
pub open spec fn distinct_prices(levels: Seq<PriceLevel>) -> bool {
    forall|price: Price| (#[trigger] levels_at(levels, price)).len() <= 1
}

proof fn lemma_first_at(levels: Seq<PriceLevel>, price: Price)
    ensures
        0 <= first_at(levels, price) <= levels.len(),
        first_at(levels, price) < levels.len() ==> levels[first_at(levels, price)].price == price,
        forall|i: int|
            0 <= i < first_at(levels, price) ==> (#[trigger] levels[i]).price != price,
    decreases levels.len(),
{
    if levels.len() > 0 && levels[0].price != price {
        let rest = levels.skip(1);
        lemma_first_at(rest, price);
        assert forall|i: int| 0 <= i < first_at(levels, price) implies (
        #[trigger] levels[i]).price != price by {
            if i > 0 {
                assert(rest[i - 1] == levels[i]);
            }
        }
    }
}

proof fn lemma_levels_at_concat(a: Seq<PriceLevel>, b: Seq<PriceLevel>, price: Price)
    ensures
        levels_at(a + b, price) == levels_at(a, price) + levels_at(b, price),
    decreases b.len(),
{
    if b.len() == 0 {
        assert(a + b =~= a);
        assert(levels_at(a, price) + levels_at(b, price) =~= levels_at(a, price));
    } else {
        lemma_levels_at_concat(a, b.drop_last(), price);
        assert((a + b).drop_last() =~= a + b.drop_last());
        assert((a + b).last() == b.last());
        assert(levels_at(a + b, price) =~= levels_at(a, price) + levels_at(b, price));
    }
}

proof fn lemma_levels_at_none(levels: Seq<PriceLevel>, price: Price)
    requires
        forall|i: int| 0 <= i < levels.len() ==> (#[trigger] levels[i]).price != price,
    ensures
        levels_at(levels, price).len() == 0,
    decreases levels.len(),
{
    if levels.len() > 0 {
        let front = levels.drop_last();
        assert(levels[levels.len() - 1].price != price);
        assert forall|i: int| 0 <= i < front.len() implies (#[trigger] front[i]).price != price by {
            assert(front[i] == levels[i]);
        }
        lemma_levels_at_none(front, price);
    }
}

proof fn lemma_levels_at_one(level: PriceLevel, price: Price)
    ensures
        levels_at(seq![level], price) == if level.price == price {
            seq![level]
        } else {
            Seq::<PriceLevel>::empty()
        },
{
    assert(seq![level].drop_last() =~= Seq::<PriceLevel>::empty());
    assert(levels_at(Seq::<PriceLevel>::empty(), price) =~= Seq::<PriceLevel>::empty());
    assert(Seq::<PriceLevel>::empty().push(level) =~= seq![level]);
}

/// A change touches the levels at its own price only, and there the first one.
pub proof fn law_change_is_local(levels: Seq<PriceLevel>, change: PriceLevel, price: Price)
    ensures
        levels_at(with_change(levels, change), price) == if change.price == price {
            queue_with_change(levels_at(levels, price), change)
        } else {
            levels_at(levels, price)
        },
{
    let at = first_at(levels, change.price);
    lemma_first_at(levels, change.price);
    if at < levels.len() {
        let a = levels.take(at);
        let x = levels[at];
        let b = levels.skip(at + 1);
        assert(levels =~= a + seq![x] + b);
        lemma_levels_at_concat(a + seq![x], b, price);
        lemma_levels_at_concat(a, seq![x], price);
        lemma_levels_at_one(x, price);
        if change.price == price {
            lemma_levels_at_none(a, price);
        }
        if change.quantity == 0 {
            assert(levels.remove(at) =~= a + b);
            lemma_levels_at_concat(a, b, price);
        } else {
            assert(levels.update(at, change) =~= a + seq![change] + b);
            lemma_levels_at_concat(a + seq![change], b, price);
            lemma_levels_at_concat(a, seq![change], price);
            lemma_levels_at_one(change, price);
        }
        if change.price == price {
            assert(levels_at(levels, price) =~= seq![x] + levels_at(b, price));
            assert(levels_at(with_change(levels, change), price) =~= queue_with_change(
                levels_at(levels, price),
                change,
            ));
        } else {
            assert(levels_at(with_change(levels, change), price) =~= levels_at(levels, price));
        }
    } else {
        if change.price == price {
            lemma_levels_at_none(levels, price);
        }
        if change.quantity > 0 {
            assert(levels.push(change).drop_last() =~= levels);
            if change.price == price {
                assert(levels_at(levels, price).push(change) =~= seq![change]);
            }
        }
    }
}

/// Under a run of changes the levels at a price evolve by the changes at that price alone.
pub proof fn law_changes_are_local(
    levels: Seq<PriceLevel>,
    changes: Seq<PriceLevel>,
    price: Price,
)
    ensures
        levels_at(with_changes(levels, changes), price) == queue_with_changes(
            levels_at(levels, price),
            levels_at(changes, price),
        ),
    decreases changes.len(),
{
    if changes.len() > 0 {
        let front = changes.drop_last();
        law_changes_are_local(levels, front, price);
        law_change_is_local(with_changes(levels, front), changes.last(), price);
        if changes.last().price == price {
            assert(levels_at(changes, price).drop_last() =~= levels_at(front, price));
        }
    }
}

proof fn lemma_queue_stays_short(queue: Seq<PriceLevel>, changes: Seq<PriceLevel>)
    requires
        queue.len() <= 1,
    ensures
        queue_with_changes(queue, changes).len() <= 1,
    decreases changes.len(),
{
    if changes.len() > 0 {
        lemma_queue_stays_short(queue, changes.drop_last());
    }
}

/// Changes never bring two levels with the same price into a side that had none.
pub proof fn law_changes_keep_prices_distinct(levels: Seq<PriceLevel>, changes: Seq<PriceLevel>)
    requires
        distinct_prices(levels),
    ensures
        distinct_prices(with_changes(levels, changes)),
{
    assert forall|price: Price| (#[trigger] levels_at(with_changes(levels, changes), price)).len()
        <= 1 by {
        law_changes_are_local(levels, changes, price);
        assert(levels_at(levels, price).len() <= 1);
        lemma_queue_stays_short(levels_at(levels, price), levels_at(changes, price));
    }
}

/// A side that has no two levels at one price has none at a price whose last change was to
/// quantity zero, and has just that change at a price whose last change was to a positive one.
pub proof fn law_last_change_decides(
    levels: Seq<PriceLevel>,
    changes: Seq<PriceLevel>,
    price: Price,
)
    requires
        distinct_prices(levels),
        levels_at(changes, price).len() > 0,
    ensures
        levels_at(changes, price).last().quantity == 0 ==> levels_at(
            with_changes(levels, changes),
            price,
        ).len() == 0,
        levels_at(changes, price).last().quantity > 0 ==> levels_at(
            with_changes(levels, changes),
            price,
        ) == seq![levels_at(changes, price).last()],
{
    law_changes_are_local(levels, changes, price);
    let own = levels_at(changes, price);
    let queue = levels_at(levels, price);
    assert(queue.len() <= 1);
    lemma_queue_stays_short(queue, own.drop_last());
    let before = queue_with_changes(queue, own.drop_last());
    if own.last().quantity > 0 {
        assert(queue_with_change(before, own.last()) =~= seq![own.last()]);
    }
}

fn find_level(levels: &Vec<PriceLevel>, price: Price) -> (at: usize)
    ensures
        at == first_at(levels@, price),
        at <= levels@.len(),
{
    let n: usize = levels.len();
    let mut at: usize = 0;
    assert(levels@.skip(0) =~= levels@);
    while at < n && levels[at].price != price
        invariant
            at <= n == levels@.len(),
            first_at(levels@, price) == at + first_at(levels@.skip(at as int), price),
        decreases n - at,
    {
        assert(levels@.skip(at as int).skip(1) =~= levels@.skip(at + 1));
        at += 1;
    }
    at
}

/// Applies a run of changes to one side of the book.
pub fn apply_side_delta(side: &mut Vec<PriceLevel>, changes: &Vec<PriceLevel>)
    ensures
        final(side)@ == with_changes(old(side)@, changes@),
{
    let n: usize = changes.len();
    let mut i: usize = 0;
    while i < n
        invariant
            i <= n == changes@.len(),
            side@ == with_changes(old(side)@, changes@.take(i as int)),
        decreases n - i,
    {
        assert(changes@.take(i + 1).drop_last() =~= changes@.take(i as int));
        let change = changes[i];
        let at: usize = find_level(side, change.price);
        if at < side.len() {
            if change.quantity == 0 {
                side.remove(at);
            } else {
                side.set(at, change);
            }
        } else if change.quantity > 0 {
            side.push(change);
        }
        i += 1;
    }
    assert(changes@.take(n as int) =~= changes@);
}

} // verus!

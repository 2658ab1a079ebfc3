use dual_venue_mm::order_book::delta::apply_side_delta;
use dual_venue_mm::order_book::ranking::{keep_positive, rank};
use dual_venue_mm::order_book::{BookSnapshot, BookUpdate, OrderBook, PriceLevel};
use dual_venue_mm::types::Side;

fn levels(pairs: &[(i64, i64)]) -> Vec<PriceLevel> {
    pairs.iter().map(|(price, quantity)| PriceLevel { price: *price, quantity: *quantity }).collect()
}

fn changed(side: &[(i64, i64)], changes: &[(i64, i64)]) -> Vec<PriceLevel> {
    let mut side = levels(side);
    apply_side_delta(&mut side, &levels(changes));
    side
}

#[test]
fn ranking_puts_the_best_price_first() {
    let given = levels(&[(3, 1), (1, 2), (3, 3), (2, 4), (1, 5)]);
    let bids = rank(Side::Buy, &given);
    assert_eq!(bids, levels(&[(3, 1), (3, 3), (2, 4), (1, 2), (1, 5)]));
    assert_eq!(rank(Side::Buy, &bids), bids);
    let asks = rank(Side::Sell, &given);
    assert_eq!(asks, levels(&[(1, 2), (1, 5), (2, 4), (3, 1), (3, 3)]));
}

#[test]
fn publishing_twice_changes_nothing() {
    let once = BookSnapshot::new(
        levels(&[(1, 1), (3, 0), (2, 5), (2, -1)]),
        levels(&[(9, 2), (8, 1), (9, 3)]),
        "TSLA".into(),
        1,
    );
    let twice = BookSnapshot::new(once.bids.clone(), once.asks.clone(), "TSLA".into(), 1);
    assert_eq!(twice.bids, once.bids);
    assert_eq!(twice.asks, once.asks);
}

#[test]
fn ranking_agrees_with_a_stable_sort() {
    let mut given = Vec::new();
    let mut x: u64 = 12345;
    for quantity in 0..200 {
        x = (x * 1_103_515_245 + 12_345) % 2_147_483_648;
        given.push(PriceLevel { price: (x >> 16) as i64 % 17, quantity });
    }
    let mut bids = given.clone();
    bids.sort_by(|a, b| b.price.cmp(&a.price));
    assert_eq!(rank(Side::Buy, &given), bids);
    let mut asks = given.clone();
    asks.sort_by(|a, b| a.price.cmp(&b.price));
    assert_eq!(rank(Side::Sell, &given), asks);
}

#[test]
fn only_positive_levels_are_kept() {
    assert_eq!(keep_positive(&levels(&[(1, 0), (2, 5), (3, -1), (4, 1)])), levels(&[(2, 5), (4, 1)]));
}

#[test]
fn changes_replace_remove_and_add() {
    assert_eq!(changed(&[(1, 1), (2, 2)], &[(2, 7)]), levels(&[(1, 1), (2, 7)]));
    assert_eq!(changed(&[(1, 1), (2, 2)], &[(1, 0)]), levels(&[(2, 2)]));
    assert_eq!(changed(&[(1, 1)], &[(3, 4), (2, 0), (4, -1)]), levels(&[(1, 1), (3, 4)]));
}

#[test]
fn the_last_change_at_a_price_decides() {
    assert_eq!(changed(&[(1, 1)], &[(1, 5), (2, 9), (1, 6)]), levels(&[(1, 6), (2, 9)]));
    assert_eq!(changed(&[(1, 1)], &[(1, 0), (1, 6)]), levels(&[(1, 6)]));
    assert_eq!(changed(&[], &[(1, 6), (1, 0)]), levels(&[]));
}

#[test]
fn changes_leave_other_prices_alone() {
    let side = [(5, 1), (4, 2), (4, 3), (1, 9)];
    let after = changed(&side, &[(5, 0), (3, 1)]);
    assert_eq!(after, levels(&[(4, 2), (4, 3), (1, 9), (3, 1)]));
}

#[test]
fn numbers_from_one_on_are_all_expected() {
    let mut book = OrderBook::new("TSLA".into());
    for seq in 1..=50 {
        let update = if seq % 7 == 0 {
            // a crossed book is rejected, and the next snapshot still has the expected number
            BookUpdate::Full { bids: levels(&[(9, 1)]), asks: levels(&[(8, 1)]) }
        } else {
            BookUpdate::Full { bids: levels(&[(10, 1)]), asks: levels(&[(11, 1)]) }
        };
        assert_eq!(book.apply(update, seq).is_ok(), seq % 7 != 0);
        assert_eq!(book.last_sequence(), seq);
    }
}

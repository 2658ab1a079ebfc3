use dual_venue_mm::clock::is_older;
use dual_venue_mm::monitor::SnapshotCounter;
use dual_venue_mm::order_book::{BookSnapshot, PriceLevel};
use std::time::Duration;

fn snapshot(bids: Vec<i64>, asks: Vec<i64>) -> BookSnapshot {
    let side = |prices: Vec<i64>| prices.into_iter().map(|price| PriceLevel { price, quantity: 1 }).collect();
    BookSnapshot::new(side(bids), side(asks), "TSLA".into(), 42)
}

#[test]
fn summary_has_the_figures_of_a_snapshot() {
    let mut counter = SnapshotCounter::new();
    let snap = snapshot(vec![1800, 1790, 1780, 1770], vec![1811, 1820]);
    assert!(counter.can_summarize(&snap));
    let summary = counter.summarize(&snap);
    assert_eq!(summary.number, 1);
    assert_eq!(summary.sequence, 42);
    assert_eq!(summary.bid, Some(1800));
    assert_eq!(summary.ask, Some(1811));
    assert_eq!(summary.mid, Some(1805));
    assert_eq!(summary.spread, Some(11));
    assert_eq!(summary.bid_levels, 3);
    assert_eq!(summary.ask_levels, 2);
    assert!(!summary.throughput_due);
}

#[test]
fn throughput_is_due_every_tenth_snapshot() {
    let mut counter = SnapshotCounter::new();
    let snap = snapshot(vec![], vec![2]);
    for number in 1..=30 {
        let summary = counter.summarize(&snap);
        assert_eq!(summary.mid, None);
        assert_eq!(summary.throughput_due, number == 10 || number == 20 || number == 30);
        assert_eq!(counter.count(), number);
    }
}

#[test]
fn figures_out_of_range_are_recognised() {
    let counter = SnapshotCounter::new();
    assert!(!counter.can_summarize(&snapshot(vec![i64::MAX], vec![1])));
    assert!(!counter.can_summarize(&snapshot(vec![i64::MIN], vec![1])));
    assert!(counter.can_summarize(&snapshot(vec![i64::MAX], vec![])));
}

#[test]
fn age_is_compared_to_the_nanosecond() {
    assert!(is_older(Duration::new(5, 1), Duration::from_secs(5)));
    assert!(!is_older(Duration::from_secs(5), Duration::from_secs(5)));
    assert!(!is_older(Duration::MAX, Duration::MAX));
    assert!(is_older(Duration::MAX, Duration::new(u64::MAX, 999_999_998)));
}

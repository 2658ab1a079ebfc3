use dual_venue_mm::exchange::ibkr::IbkrDriver;
use dual_venue_mm::exchange::{DriverError, ExchangeDriver, IbkrMarketData};
use dual_venue_mm::types::{InstrumentSpec, Order, OrderType, Side, TimeInForce};
use std::time::{Duration, Instant};

fn make_driver() -> IbkrDriver {
    IbkrDriver::new(InstrumentSpec::new("TSLA", 4, 2))
}

fn market_order() -> Order {
    Order {
        instrument: "TSLA".into(),
        side: Side::Buy,
        quantity: 100,
        order_type: OrderType::Market,
        tif: TimeInForce::Ioc,
    }
}

#[test]
fn connect_publishes_connected_state() {
    let mut driver = IbkrDriver::new(InstrumentSpec::new("TSLA", 4, 2));
    // the connected state is to be published, on every call
    assert!(driver.connect().unwrap());
    assert!(driver.connect().unwrap());
}

#[test]
fn place_market_order_succeeds() {
    let mut driver = make_driver();
    driver.connect().unwrap();

    let order = Order {
        instrument: "TSLA".into(),
        side: Side::Buy,
        quantity: 100,
        order_type: OrderType::Market,
        tif: TimeInForce::Ioc,
    };

    let result = driver.place_order(order, 0);
    assert!(result.is_ok());
    assert!(result.unwrap().starts_with("ibkr-order-"));
}

#[test]
fn place_limit_order_returns_not_supported() {
    let mut driver = make_driver();
    driver.connect().unwrap();

    let order = Order {
        instrument: "TSLA".into(),
        side: Side::Buy,
        quantity: 100,
        order_type: OrderType::Limit { price: 1_800_000, post_only: false },
        tif: TimeInForce::Gtc,
    };

    let result = driver.place_order(order, 0);
    assert!(matches!(result, Err(DriverError::NotSupported)));
}

#[test]
fn place_order_when_not_connected_returns_error() {
    let mut driver = make_driver();
    let result = driver.place_order(market_order(), 0);
    assert!(matches!(result, Err(DriverError::NotConnected)));
}

#[test]
fn capabilities_reflect_ibkr_role() {
    let driver = make_driver();
    let caps = driver.capabilities();
    assert!(!caps.can_place_limit_orders);
    assert!(!caps.can_stream_order_book);
    assert!(caps.provides_reference_price);
}

#[test]
fn market_data_injection_normalizes_prices() {
    // the driver takes prices in fixed point
    let fixed = |raw: f64| -> i64 { (raw * 10f64.powi(4)).round() as i64 };
    let driver = make_driver();
    let data = driver.inject_market_data(fixed(180.45), fixed(180.50), fixed(180.47));
    assert_eq!(data.best_bid, Some(1_804_500));
    assert_eq!(data.best_ask, Some(1_805_000));
    assert_eq!(data.last_trade, Some(1_804_700));
}

#[test]
fn ibkr_market_data_mid() {
    let data = IbkrMarketData {
        best_bid: Some(1_804_500),
        best_ask: Some(1_805_000),
        last_trade: Some(1_804_700),
        timestamp: Instant::now(),
    };
    assert_eq!(data.mid(), Some(1_804_750));
}

#[test]
fn ibkr_market_data_staleness() {
    let data = IbkrMarketData {
        best_bid: Some(1_804_500),
        best_ask: Some(1_805_000),
        last_trade: None,
        timestamp: Instant::now(),
    };
    assert!(!data.is_stale(Duration::from_secs(1)));
    assert!(data.is_stale(Duration::from_nanos(0)));
}

#[test]
fn venue_name_is_ibkr() {
    let driver = make_driver();
    assert_eq!(driver.venue_name(), "IBKR");
}

#[test]
fn mid_needs_both_prices() {
    let mut data = make_driver().inject_market_data(-10, -5, 0);
    assert_eq!(data.mid(), Some(-7));
    data.best_ask = None;
    assert_eq!(data.mid(), None);
    assert!(!data.is_stale(Duration::MAX));
}

#[test]
fn market_data_bears_the_time_of_the_clock() {
    let before = Instant::now();
    let data = make_driver().inject_market_data(1, 2, 3);
    let after = Instant::now();
    assert!(before <= data.timestamp && data.timestamp <= after);
}

#[test]
fn requests_are_numbered_in_order() {
    let mut driver = make_driver();
    assert_eq!(driver.next_req_id(), 1);
    assert!(matches!(driver.subscribe_market_data(), Err(DriverError::NotConnected)));
    driver.connect().unwrap();
    assert!(driver.can_request());
    assert!(driver.can_order());
    assert_eq!(driver.place_order(market_order(), 0).unwrap(), "ibkr-order-1");
    driver.subscribe_market_data().unwrap();
    let mut limit = market_order();
    limit.order_type = OrderType::Limit { price: 1, post_only: true };
    assert!(driver.place_order(limit, 0).is_err());
    driver.disconnect().unwrap();
    driver.connect().unwrap();
    assert_eq!(driver.next_req_id(), 3);
    assert_eq!(driver.place_order(market_order(), 0).unwrap(), "ibkr-order-3");
}

#[test]
fn other_requests_need_a_connection() {
    let mut driver = make_driver();
    let id = "ibkr-order-1".to_string();
    assert!(matches!(driver.cancel_order(&id), Err(DriverError::NotConnected)));
    assert!(matches!(driver.get_positions(), Err(DriverError::NotConnected)));
    driver.connect().unwrap();
    assert!(driver.cancel_order(&id).is_ok());
    assert_eq!(driver.get_positions().unwrap().len(), 0);
    driver.disconnect().unwrap();
    assert!(driver.get_positions().is_err());
}

#[test]
fn driver_errors_are_described() {
    let text = || "x".to_string();
    assert_eq!(DriverError::NotConnected.message(), "Not connected");
    assert_eq!(DriverError::NotSupported.message(), "Not supported by this venue");
    assert_eq!(DriverError::OrderRejected { reason: text() }.message(), "Order rejected by venue: x");
    assert_eq!(DriverError::OrderNotFound { id: text() }.message(), "Order not found: x");
    assert_eq!(DriverError::Connection(text()).message(), "Connection error: x");
    assert_eq!(DriverError::Protocol(text()).message(), "Protocol error: x");
    assert_eq!(DriverError::Serialization(text()).message(), "Serialization error: x");
    assert_eq!(DriverError::Timeout { ms: 0 }.message(), "Timeout after 0ms");
    assert_eq!(DriverError::Timeout { ms: u64::MAX }.message(), "Timeout after 18446744073709551615ms");
}

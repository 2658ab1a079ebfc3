use dual_venue_mm::exchange::hyperliquid::{
    can_parse_hl_levels, can_parse_l2_message, may_hold_book, parse_hl_levels, parse_l2_message, HlDriver,
    HlL2BookData, HlLevel, HlWsMessage,
};
use dual_venue_mm::exchange::{DriverError, ExchangeDriver};
use dual_venue_mm::order_book::{BookUpdate, PriceLevel, RawBookUpdate};
use dual_venue_mm::types::{InstrumentSpec, Order, OrderType, Side, TimeInForce};
use serde_json::Value;

fn make_driver() -> HlDriver {
    HlDriver::new(InstrumentSpec::new("TSLA", 4, 2))
}

fn l2_msg(bids: Vec<(&str, &str)>, asks: Vec<(&str, &str)>) -> String {
    let fmt = |levels: Vec<(&str, &str)>| -> String {
        levels
            .iter()
            .map(|(px, sz)| format!(r#"{{"px":"{}","sz":"{}","n":1}}"#, px, sz))
            .collect::<Vec<_>>()
            .join(",")
    };
    format!(
        r#"{{"channel":"l2Book","data":{{"coin":"TSLA","levels":[[{}],[{}]],"time":1234}}}}"#,
        fmt(bids),
        fmt(asks)
    )
}

fn text_of(value: &Value, field: &str) -> Result<String, String> {
    match value.get(field).and_then(|v| v.as_str()) {
        Some(text) => Ok(text.to_string()),
        None => Err(format!("missing field `{field}`")),
    }
}

fn number_of(value: &Value, field: &str) -> Result<u64, String> {
    value.get(field).and_then(|v| v.as_u64()).ok_or(format!("missing field `{field}`"))
}

fn decode_level(value: &Value) -> Result<HlLevel, String> {
    Ok(HlLevel { px: text_of(value, "px")?, sz: text_of(value, "sz")?, n: number_of(value, "n")? })
}

fn decode_book(value: &Value) -> Result<HlL2BookData, String> {
    let mut levels = Vec::new();
    for side in value.get("levels").and_then(|v| v.as_array()).ok_or("missing field `levels`".to_string())? {
        let side = side.as_array().ok_or("not a sequence".to_string())?;
        levels.push(side.iter().map(decode_level).collect::<Result<Vec<HlLevel>, String>>()?);
    }
    Ok(HlL2BookData { coin: text_of(value, "coin")?, levels, time: number_of(value, "time")? })
}

fn decode(raw: &str) -> Result<HlWsMessage, String> {
    let value: Value = serde_json::from_str(raw).map_err(|e| e.to_string())?;
    let data = value.get("data").ok_or("missing field `data`".to_string())?;
    Ok(HlWsMessage { channel: text_of(&value, "channel")?, data: decode_book(data) })
}

fn handle(driver: &HlDriver, raw: &str, seq: u64) -> Result<Option<RawBookUpdate>, DriverError> {
    let message = decode(raw);
    assert!(driver.can_handle_l2_message(&message));
    driver.handle_l2_message(&message, seq)
}

fn parse(text: &str, coin: &str, spec: &InstrumentSpec) -> Option<(Vec<PriceLevel>, Vec<PriceLevel>)> {
    let message = decode(text).ok();
    assert!(can_parse_l2_message(text, &message, coin, spec));
    parse_l2_message(text, &message, coin, spec)
}

fn level(px: &str, sz: &str) -> HlLevel {
    HlLevel { px: px.to_string(), sz: sz.to_string(), n: 1 }
}

fn protocol_text(error: DriverError) -> String {
    match error {
        DriverError::Protocol(text) => text,
        other => panic!("{other:?}"),
    }
}

fn market_order() -> Order {
    Order {
        instrument: "TSLA".into(),
        side: Side::Buy,
        quantity: 100,
        order_type: OrderType::Market,
        tif: TimeInForce::Ioc,
    }
}

#[test]
fn parses_valid_l2_and_sends_raw_update() {
    let driver = make_driver();
    let msg = l2_msg(
        vec![("180.45", "1.50"), ("180.40", "2.00")],
        vec![("180.50", "1.00"), ("180.55", "3.00")],
    );
    let raw = handle(&driver, &msg, 1).unwrap().expect("update should be sent");
    assert_eq!(raw.seq, 1);
    match raw.update {
        BookUpdate::Full { bids, asks } => {
            assert_eq!(bids[0].price, 1_804_500); // 180.45 * 10^4
            assert_eq!(asks[0].price, 1_805_000); // 180.50 * 10^4
        }
        _ => panic!("expected Full update"),
    }
}

#[test]
fn ignores_non_l2book_channel() {
    let driver = make_driver();
    let msg = r#"{"channel":"fills","data":{"coin":"TSLA"}}"#;
    let result = handle(&driver, msg, 1).unwrap();
    assert!(result.is_none()); // not a book message, nothing to send
}

#[test]
fn crossed_book_is_forwarded_to_order_book_task() {
    // The driver forwards levels as they come; a crossed book is up to the book.
    let driver = make_driver();
    let msg = l2_msg(vec![("181.00", "1.00")], vec![("180.50", "1.00")]);
    let result = handle(&driver, &msg, 1);
    assert!(result.is_ok());
    assert!(result.unwrap().is_some());
}

#[test]
fn sequence_numbers_forwarded_correctly() {
    let driver = make_driver();
    let first = handle(&driver, &l2_msg(vec![("180.00", "1.00")], vec![("181.00", "1.00")]), 1);
    let second = handle(&driver, &l2_msg(vec![("182.00", "1.00")], vec![("183.00", "1.00")]), 3);
    assert_eq!(first.unwrap().unwrap().seq, 1);
    assert_eq!(second.unwrap().unwrap().seq, 3); // a gap, which the book detects
}

#[test]
fn all_updates_forwarded_to_order_book_task() {
    let driver = make_driver();
    let first = handle(&driver, &l2_msg(vec![("180.00", "1.00")], vec![("181.00", "1.00")]), 1);
    let second = handle(&driver, &l2_msg(vec![("180.00", "1.00")], vec![("181.00", "1.00")]), 3);
    let third = handle(&driver, &l2_msg(vec![("185.00", "1.00")], vec![("186.00", "1.00")]), 4);
    assert!(first.unwrap().is_some());
    assert!(second.unwrap().is_some());
    assert!(third.unwrap().is_some());
}

#[test]
fn parse_l2_message_helper_correct_coin() {
    let msg = l2_msg(vec![("180.00", "1.00")], vec![("181.00", "1.00")]);
    let spec = InstrumentSpec::new("TSLA", 4, 2);
    let result = parse(&msg, "TSLA", &spec);
    assert!(result.is_some());
    let (bids, asks) = result.unwrap();
    assert_eq!(bids[0].price, 1_800_000);
    assert_eq!(asks[0].price, 1_810_000);
}

#[test]
fn parse_l2_message_helper_wrong_coin_returns_none() {
    let msg = l2_msg(vec![("180.00", "1.00")], vec![("181.00", "1.00")]);
    let spec = InstrumentSpec::new("TSLA", 4, 2);
    assert!(parse(&msg, "BTC", &spec).is_none());
}

#[test]
fn parse_l2_message_helper_ignores_non_book_channel() {
    let msg = r#"{"channel":"fills","data":{}}"#;
    let spec = InstrumentSpec::new("TSLA", 4, 2);
    assert!(parse(msg, "TSLA", &spec).is_none());
}

#[test]
fn capabilities_correct() {
    let driver = make_driver();
    let caps = driver.capabilities();
    assert!(caps.can_place_limit_orders);
    assert!(caps.can_stream_order_book);
    assert!(!caps.provides_reference_price);
    assert_eq!(driver.venue_name(), "Hyperliquid");
}

#[test]
fn connect_spawns_reader_task() {
    let mut driver = make_driver();
    // the first call asks for a reader, a second one finds it running
    assert!(driver.connect().unwrap());
    assert!(driver.get_positions().is_ok());
    assert!(!driver.connect().unwrap());
}

#[test]
fn disconnect_drops_reader_rx() {
    let mut driver = make_driver();
    driver.connect().unwrap();
    driver.disconnect().unwrap();
    assert!(matches!(driver.get_positions(), Err(DriverError::NotConnected)));
    // the reader is gone: connecting again asks for another one
    assert!(driver.connect().unwrap());
}

#[test]
fn subscribe_market_data_requires_connection() {
    let mut driver = make_driver();
    assert!(driver.subscribe_market_data().is_err());
    driver.connect().unwrap();
    assert!(driver.subscribe_market_data().is_ok());
}

#[test]
fn updates_carry_every_level_in_order() {
    let driver = make_driver();
    let msg = l2_msg(vec![("180.45", "1.50"), ("180.40", "0"), ("180.40", "2")], vec![]);
    match handle(&driver, &msg, 9).unwrap() {
        Some(RawBookUpdate { update: BookUpdate::Full { bids, asks }, seq }) => {
            assert_eq!(seq, 9);
            assert_eq!(
                bids,
                vec![
                    PriceLevel { price: 1_804_500, quantity: 150 },
                    PriceLevel { price: 1_804_000, quantity: 0 },
                    PriceLevel { price: 1_804_000, quantity: 200 },
                ]
            );
            assert_eq!(asks, vec![]);
        }
        _ => panic!("expected Full update"),
    }
}

#[test]
fn unreadable_messages_are_protocol_errors() {
    let driver = make_driver();
    let error = driver.handle_l2_message(&Err("expected value".to_string()), 1);
    assert_eq!(protocol_text(error.err().unwrap()), "parse error: expected value");
    let msg = r#"{"channel":"l2Book","data":{"coin":"TSLA","levels":[[],[]]}}"#;
    let error = handle(&driver, msg, 1).err().unwrap();
    assert_eq!(error.message(), "Protocol error: l2Book data parse error: missing field `time`");
    let msg = r#"{"channel":"l2Book","data":{"coin":"TSLA","levels":[[]],"time":1}}"#;
    let error = handle(&driver, msg, 1).err().unwrap();
    assert_eq!(protocol_text(error), "l2Book missing bid/ask levels");
}

#[test]
fn first_bad_level_is_a_protocol_error() {
    let driver = make_driver();
    let msg = l2_msg(vec![("180", "1"), ("x", "1"), ("180.45678", "1")], vec![("y", "1")]);
    assert_eq!(protocol_text(handle(&driver, &msg, 1).err().unwrap()), "price parse: Invalid number: x");
    let msg = l2_msg(vec![("180", "1")], vec![("181", "1.005")]);
    assert_eq!(
        protocol_text(handle(&driver, &msg, 1).err().unwrap()),
        "qty parse: Value '1.005' has 3 decimal places, max allowed is 2"
    );
}

#[test]
fn levels_of_a_side_are_all_or_none() {
    let spec = InstrumentSpec::new("TSLA", 4, 2);
    let good = vec![level("180.45", "1.5"), level("-1", "0.25")];
    assert!(can_parse_hl_levels(&good, &spec));
    assert_eq!(
        parse_hl_levels(&good, &spec).unwrap(),
        vec![PriceLevel { price: 1_804_500, quantity: 150 }, PriceLevel { price: -10_000, quantity: 25 }]
    );
    assert_eq!(parse_hl_levels(&[], &spec).unwrap(), vec![]);
    let bad = vec![level("180.45", "1.5"), level("1", "one")];
    let error = parse_hl_levels(&bad, &spec).unwrap_err();
    assert_eq!(error.message(), "Protocol error: qty parse: Invalid number: one");
}

#[test]
fn levels_out_of_range_are_recognised() {
    let spec = InstrumentSpec::new("TSLA", 4, 2);
    let large = "9223372036854775807";
    assert!(!can_parse_hl_levels(&[level("1", "1"), level(large, "1")], &spec));
    assert!(!can_parse_hl_levels(&[level("1", large)], &spec));
    // nothing is computed behind the first error
    assert!(can_parse_hl_levels(&[level("x", large), level(large, "1")], &spec));
    let driver = make_driver();
    assert!(!driver.can_handle_l2_message(&decode(&l2_msg(vec![(large, "1")], vec![]))));
    assert!(!driver.can_handle_l2_message(&decode(&l2_msg(vec![], vec![(large, "1")]))));
    assert!(driver.can_handle_l2_message(&decode(&l2_msg(vec![("x", "1")], vec![(large, "1")]))));
    assert!(driver.can_handle_l2_message(&Err("no message".to_string())));
}

#[test]
fn bad_levels_are_left_out_of_the_feed() {
    let spec = InstrumentSpec::new("TSLA", 4, 2);
    let msg = l2_msg(vec![("x", "1"), ("180", "1"), ("179", "1.005")], vec![("181", "y")]);
    let (bids, asks) = parse(&msg, "TSLA", &spec).unwrap();
    assert_eq!(bids, vec![PriceLevel { price: 1_800_000, quantity: 100 }]);
    assert_eq!(asks, vec![]);
}

#[test]
fn feed_ignores_what_is_no_book() {
    let spec = InstrumentSpec::new("TSLA", 4, 2);
    assert!(parse("l2Book", "TSLA", &spec).is_none());
    let msg = r#"{"channel":"l2Book","data":{"coin":"TSLA","levels":[[]],"time":1}}"#;
    assert!(parse(msg, "TSLA", &spec).is_none());
    let msg = r#"{"channel":"l2Book","data":{}}"#;
    assert!(parse(msg, "TSLA", &spec).is_none());
    // the channel is looked for in the text itself
    let msg = l2_msg(vec![("180.00", "1.00")], vec![]).replace("l2Book", "\\u006c2Book");
    assert_eq!(decode(&msg).unwrap().channel, "l2Book");
    assert!(parse(&msg, "TSLA", &spec).is_none());
    assert!(handle(&make_driver(), &msg, 1).unwrap().is_some());
}

#[test]
fn feed_levels_out_of_range_are_recognised() {
    let spec = InstrumentSpec::new("TSLA", 4, 2);
    let msg = l2_msg(vec![("x", "1")], vec![("9223372036854775807", "1")]);
    assert!(!can_parse_l2_message(&msg, &decode(&msg).ok(), "TSLA", &spec));
    assert!(can_parse_l2_message(&msg, &decode(&msg).ok(), "BTC", &spec));
    assert!(can_parse_l2_message(&msg, &None, "TSLA", &spec));
}

#[test]
fn book_messages_are_recognised_by_a_word() {
    assert!(may_hold_book("l2Book"));
    assert!(may_hold_book("l2l2Booky"));
    assert!(!may_hold_book("l2Boo"));
    assert!(!may_hold_book("L2BOOK"));
    assert!(!may_hold_book(""));
}

#[test]
fn forwarding_answers_for_the_channel() {
    assert!(HlDriver::forwarded(Ok(())).unwrap());
    let error = HlDriver::forwarded(Err("channel closed".to_string())).unwrap_err();
    assert_eq!(error.message(), "Protocol error: order_book task unreachable: channel closed");
}

#[test]
fn orders_need_a_connection() {
    let mut driver = make_driver();
    assert!(matches!(driver.place_order(market_order(), 5), Err(DriverError::NotConnected)));
    assert!(matches!(driver.cancel_order(&"hl-5".to_string()), Err(DriverError::NotConnected)));
    driver.connect().unwrap();
    assert!(driver.can_request());
    assert_eq!(driver.place_order(market_order(), 5).unwrap(), "hl-5");
    assert!(driver.cancel_order(&"hl-5".to_string()).is_ok());
    assert_eq!(driver.get_positions().unwrap().len(), 0);
}

#[test]
fn limit_orders_are_taken() {
    let mut driver = make_driver();
    driver.connect().unwrap();
    let mut order = market_order();
    order.order_type = OrderType::Limit { price: 1_800_000, post_only: true };
    assert_eq!(driver.place_order(order, 1_700_000_000_000).unwrap(), "hl-1700000000000");
}

#[test]
fn order_identifiers_increase_with_any_clock() {
    let mut driver = make_driver();
    driver.connect().unwrap();
    let ids: Vec<String> =
        [100, 100, 90, 102, 103].iter().map(|t| driver.place_order(market_order(), *t).unwrap()).collect();
    assert_eq!(ids, vec!["hl-100", "hl-101", "hl-102", "hl-103", "hl-104"]);
    driver.disconnect().unwrap();
    driver.connect().unwrap();
    assert_eq!(driver.place_order(market_order(), 1).unwrap(), "hl-105");
}

#[test]
fn last_nonce_leaves_none_for_another_order() {
    let mut driver = make_driver();
    driver.connect().unwrap();
    assert!(driver.can_order());
    assert_eq!(driver.place_order(market_order(), u128::MAX - 1).unwrap(), format!("hl-{}", u128::MAX - 1));
    assert!(driver.can_order());
    assert_eq!(driver.place_order(market_order(), 0).unwrap(), format!("hl-{}", u128::MAX));
    assert!(!driver.can_order());
    // other requests need no nonce
    assert!(driver.subscribe_market_data().is_ok());
}

use dual_venue_mm::exchange::hyperliquid::{HlL2BookData, HlLevel, HlWsMessage};
use dual_venue_mm::exchange::reader::{
    backoff, subscription_message, FeedReader, Frame, ReaderCommand, ReaderEvent, ReaderInput,
};
use dual_venue_mm::exchange::ConnectionState;
use dual_venue_mm::order_book::{BookUpdate, PriceLevel};
use dual_venue_mm::types::InstrumentSpec;
use std::time::Instant;

fn step(reader: &mut FeedReader, input: ReaderInput) -> ReaderCommand {
    assert!(reader.can_step(&input));
    reader.step(input)
}

fn done(reader: &mut FeedReader) -> ReaderCommand {
    step(reader, ReaderInput::Done)
}

fn frame(reader: &mut FeedReader, frame: Frame) -> ReaderCommand {
    step(reader, ReaderInput::Frame(frame))
}

fn make_reader() -> FeedReader {
    FeedReader::new(InstrumentSpec::new("TSLA", 4, 2))
}

fn streaming() -> FeedReader {
    let mut reader = make_reader();
    for _ in 0..3 {
        done(&mut reader);
    }
    assert!(matches!(done(&mut reader), ReaderCommand::Read));
    reader
}

fn book(coin: &str, px: &str) -> Frame {
    let level = HlLevel { px: px.to_string(), sz: "1".to_string(), n: 1 };
    Frame::Text {
        text: "l2Book".to_string(),
        message: Some(HlWsMessage {
            channel: "l2Book".to_string(),
            data: Ok(HlL2BookData { coin: coin.to_string(), levels: vec![vec![level], vec![]], time: 0 }),
        }),
    }
}

fn is_reconnecting(command: ReaderCommand, expected: u32) -> bool {
    match command {
        ReaderCommand::Publish(ConnectionState::Reconnecting { attempts, .. }) => attempts == expected,
        _ => false,
    }
}

#[test]
fn reader_connects_and_subscribes() {
    let mut reader = make_reader();
    assert!(matches!(done(&mut reader), ReaderCommand::Publish(ConnectionState::Connected)));
    assert!(matches!(done(&mut reader), ReaderCommand::Pause(100)));
    match done(&mut reader) {
        ReaderCommand::Subscribe(message) => assert_eq!(
            message,
            r#"{"method":"subscribe","subscription":{"type":"l2Book","coin":"TSLA"}}"#
        ),
        _ => panic!("expected Subscribe"),
    }
    assert!(matches!(done(&mut reader), ReaderCommand::Read));
}

#[test]
fn coin_is_escaped_in_the_subscription() {
    let coin = "a\"b\\c/\u{8}\t\n\u{c}\r\u{1}\u{1f}\u{7f}\u{20ac}\u{10ffff}";
    let message = subscription_message(coin);
    assert_eq!(
        message,
        "{\"method\":\"subscribe\",\"subscription\":{\"type\":\"l2Book\",\"coin\":\
         \"a\\\"b\\\\c/\\b\\t\\n\\f\\r\\u0001\\u001f\u{7f}\u{20ac}\u{10ffff}\"}}"
    );
    let value: serde_json::Value = serde_json::from_str(&message).unwrap();
    assert_eq!(value.get("subscription").unwrap().get("coin").unwrap().as_str(), Some(coin));
    assert_eq!(value.get("method").unwrap().as_str(), Some("subscribe"));
}

#[test]
fn every_control_character_is_escaped_as_stated() {
    for code in 0u8..32 {
        let message = subscription_message(&char::from(code).to_string());
        let escaped = match code {
            8 => "\\b".to_string(),
            9 => "\\t".to_string(),
            10 => "\\n".to_string(),
            12 => "\\f".to_string(),
            13 => "\\r".to_string(),
            _ => format!("\\u{code:04x}"),
        };
        assert!(message.ends_with(&format!("\"coin\":\"{escaped}\"}}}}")), "{message}");
    }
}

#[test]
fn reader_numbers_the_updates() {
    let mut reader = streaming();
    for (number, px) in [(1, "180.45"), (2, "180.50")] {
        match frame(&mut reader, book("TSLA", px)) {
            ReaderCommand::Forward(raw) => {
                assert_eq!(raw.seq, number);
                match raw.update {
                    BookUpdate::Full { bids, asks } => {
                        let price = if number == 1 { 1_804_500 } else { 1_805_000 };
                        assert_eq!(bids, vec![PriceLevel { price, quantity: 100 }]);
                        assert_eq!(asks, vec![]);
                    }
                    _ => panic!("expected Full update"),
                }
            }
            _ => panic!("expected Forward"),
        }
        // a full channel does not stop the reader
        assert!(matches!(step(&mut reader, ReaderInput::Failed), ReaderCommand::Read));
        assert!(matches!(frame(&mut reader, book("BTC", px)), ReaderCommand::Read));
    }
}

#[test]
fn reader_ignores_other_frames() {
    let mut reader = streaming();
    assert!(matches!(frame(&mut reader, Frame::Other), ReaderCommand::Read));
    let text = Frame::Text { text: "{}".to_string(), message: None };
    assert!(matches!(frame(&mut reader, text), ReaderCommand::Read));
}

#[test]
fn reader_answers_pings() {
    let mut reader = streaming();
    match frame(&mut reader, Frame::Ping(vec![1, 2, 3])) {
        ReaderCommand::Pong(payload) => assert_eq!(payload, vec![1, 2, 3]),
        _ => panic!("expected Pong"),
    }
    assert!(matches!(step(&mut reader, ReaderInput::Failed), ReaderCommand::Read));
}

#[test]
fn dropped_connection_is_opened_again() {
    for end in [Frame::Close, Frame::Error, Frame::End] {
        let mut reader = streaming();
        frame(&mut reader, book("TSLA", "1"));
        done(&mut reader);
        match frame(&mut reader, end) {
            ReaderCommand::Notify(ReaderEvent::Disconnected { reason }) => {
                assert_eq!(reason, "connection dropped");
            }
            _ => panic!("expected Notify"),
        }
        assert!(matches!(done(&mut reader), ReaderCommand::DrawJitter(1_000)));
        assert!(is_reconnecting(step(&mut reader, ReaderInput::Jitter(150)), 1));
        assert!(matches!(done(&mut reader), ReaderCommand::Pause(1_150)));
        assert!(matches!(done(&mut reader), ReaderCommand::Connect));
        assert_eq!(reader.attempts(), 1);
        // the count of updates goes on over connections
        for _ in 0..4 {
            done(&mut reader);
        }
        assert_eq!(reader.attempts(), 0);
        match frame(&mut reader, book("TSLA", "1")) {
            ReaderCommand::Forward(raw) => assert_eq!(raw.seq, 2),
            _ => panic!("expected Forward"),
        }
    }
}

#[test]
fn reconnection_bears_the_time_of_the_clock() {
    let before = Instant::now();
    let mut reader = make_reader();
    match step(&mut reader, ReaderInput::Failed) {
        ReaderCommand::Publish(ConnectionState::Reconnecting { since, attempts }) => {
            assert_eq!(attempts, 0);
            assert!(before <= since && since <= Instant::now());
        }
        _ => panic!("expected Publish"),
    }
}

#[test]
fn reader_without_owner_stops() {
    let mut reader = streaming();
    frame(&mut reader, Frame::Close);
    assert!(matches!(step(&mut reader, ReaderInput::Failed), ReaderCommand::Stop));
    assert!(!reader.can_step(&ReaderInput::Done));
}

#[test]
fn failed_subscription_connects_again() {
    let mut reader = make_reader();
    for _ in 0..3 {
        done(&mut reader);
    }
    assert!(matches!(step(&mut reader, ReaderInput::Failed), ReaderCommand::Connect));
    assert_eq!(reader.attempts(), 0);
}

#[test]
fn reader_gives_up_after_ten_failures() {
    let mut reader = make_reader();
    let waits = [1_000, 2_000, 4_000, 8_000, 16_000, 30_000, 30_000, 30_000, 30_000];
    for (attempt, wait) in waits.iter().enumerate() {
        assert!(is_reconnecting(step(&mut reader, ReaderInput::Failed), attempt as u32));
        match done(&mut reader) {
            ReaderCommand::DrawJitter(backoff) => assert_eq!(backoff, *wait),
            _ => panic!("expected DrawJitter"),
        }
        assert!(is_reconnecting(step(&mut reader, ReaderInput::Jitter(1)), attempt as u32 + 1));
        match done(&mut reader) {
            ReaderCommand::Pause(pause) => assert_eq!(pause, wait + 1),
            _ => panic!("expected Pause"),
        }
        assert!(matches!(done(&mut reader), ReaderCommand::Connect));
    }
    step(&mut reader, ReaderInput::Failed);
    match done(&mut reader) {
        ReaderCommand::Publish(ConnectionState::Failed { reason }) => {
            assert_eq!(reason, "max reconnect attempts reached");
        }
        _ => panic!("expected Publish"),
    }
    assert!(matches!(done(&mut reader), ReaderCommand::Stop));
}

#[test]
fn backoff_doubles_up_to_its_limit() {
    assert_eq!(backoff(0), 500);
    assert_eq!(backoff(1), 1_000);
    assert_eq!(backoff(5), 16_000);
    assert_eq!(backoff(6), 30_000);
    assert_eq!(backoff(100), 30_000);
}

#[test]
fn reader_takes_only_answers_to_its_command() {
    let mut reader = make_reader();
    assert!(!reader.can_step(&ReaderInput::Frame(Frame::Close)));
    assert!(!reader.can_step(&ReaderInput::Jitter(0)));
    done(&mut reader);
    assert!(!reader.can_step(&ReaderInput::Failed));
    let reader = streaming();
    assert!(!reader.can_step(&ReaderInput::Done));
    assert!(!reader.can_step(&ReaderInput::Frame(book("TSLA", "9223372036854775807"))));
    let mut reader = streaming();
    frame(&mut reader, Frame::End);
    done(&mut reader);
    assert!(!reader.can_step(&ReaderInput::Jitter(u64::MAX)));
    assert!(!reader.can_step(&ReaderInput::Done));
}

use eth_volatility::aggregator::combine_fetches;
use eth_volatility::collector::{BinanceCollector, Frame, ReadEvent, ReadStep};
use eth_volatility::price_text::parse_price_e8;
use eth_volatility::{CollectorError, PricePoint, PriceSource};

#[test]
fn parse_plain_integers() {
    assert_eq!(parse_price_e8(b"100"), Some(10_000_000_000));
    assert_eq!(parse_price_e8(b"0"), Some(0));
    assert_eq!(parse_price_e8(b"99999999999"), Some(9_999_999_999_900_000_000));
}

#[test]
fn parse_decimals() {
    assert_eq!(parse_price_e8(b"102.5"), Some(10_250_000_000));
    assert_eq!(parse_price_e8(b"0.00000001"), Some(1));
    assert_eq!(parse_price_e8(b"2650.40"), Some(265_040_000_000));
    assert_eq!(parse_price_e8(b"1234.56780000"), Some(123_456_780_000));
    assert_eq!(parse_price_e8(b"5."), Some(500_000_000));
}

#[test]
fn parse_truncates_below_resolution() {
    assert_eq!(parse_price_e8(b"1.999999999"), Some(199_999_999));
    assert_eq!(parse_price_e8(b"0.000000009"), Some(0));
}

#[test]
fn parse_rejects_malformed_text() {
    assert_eq!(parse_price_e8(b""), None);
    assert_eq!(parse_price_e8(b"."), None);
    assert_eq!(parse_price_e8(b".5"), None);
    assert_eq!(parse_price_e8(b"-1"), None);
    assert_eq!(parse_price_e8(b"12a.3"), None);
    assert_eq!(parse_price_e8(b"1.2.3"), None);
    assert_eq!(parse_price_e8(b"1e3"), None);
    assert_eq!(parse_price_e8(b" 1"), None);
    assert_eq!(parse_price_e8(b"999999999999"), None);
}

#[test]
fn fresh_collector_connects_first() {
    let col = BinanceCollector::new("wss://example/ws".to_string());
    assert!(col.needs_connect());
}

#[test]
fn connect_outcome_drives_the_state() {
    let mut col = BinanceCollector::new("wss://example/ws".to_string());
    assert_eq!(col.on_connect_result(false), Err(CollectorError::ConnectionError));
    assert!(col.needs_connect());
    assert_eq!(col.on_connect_result(true), Ok(()));
    assert!(!col.needs_connect());
}

#[test]
fn read_error_forces_reconnect() {
    let mut col = BinanceCollector::new("wss://example/ws".to_string());
    col.on_connect_result(true).unwrap();
    let step = col.on_read_event(ReadEvent::Failed);
    assert!(matches!(step, ReadStep::Fail(CollectorError::ConnectionError)));
    // The next fetch must attempt a fresh connect + subscribe before reading.
    assert!(col.needs_connect());
}

#[test]
fn non_trade_frames_are_skipped() {
    let mut col = BinanceCollector::new("wss://example/ws".to_string());
    col.on_connect_result(true).unwrap();
    let step = col.on_read_event(ReadEvent::Frame(Frame::Other));
    assert!(matches!(step, ReadStep::Skip));
    assert!(!col.needs_connect());
}

#[test]
fn bad_price_text_is_a_data_error() {
    let mut col = BinanceCollector::new("wss://example/ws".to_string());
    col.on_connect_result(true).unwrap();
    let ev = ReadEvent::Frame(Frame::Trade {
        price_text: b"not-a-number".to_vec(),
        timestamp_millis: 1_690_000_123_456,
    });
    let step = col.on_read_event(ev);
    assert!(matches!(step, ReadStep::Fail(CollectorError::DataError)));
    // A data error does not tear the connection down.
    assert!(!col.needs_connect());
}

#[test]
fn zero_price_is_a_data_error() {
    let mut col = BinanceCollector::new("wss://example/ws".to_string());
    col.on_connect_result(true).unwrap();
    let ev = ReadEvent::Frame(Frame::Trade {
        price_text: b"0.0".to_vec(),
        timestamp_millis: 1_690_000_123_456,
    });
    let step = col.on_read_event(ev);
    assert!(matches!(step, ReadStep::Fail(CollectorError::DataError)));
}

#[test]
fn trade_frame_becomes_a_sample() {
    let mut col = BinanceCollector::new("wss://example/ws".to_string());
    col.on_connect_result(true).unwrap();
    let ev = ReadEvent::Frame(Frame::Trade {
        price_text: b"2650.40".to_vec(),
        timestamp_millis: 1_690_000_123_456,
    });
    let step = col.on_read_event(ev);
    match step {
        ReadStep::Sample(pp) => {
            assert_eq!(pp.timestamp_secs, 1_690_000_123);
            assert_eq!(pp.price_e8, 265_040_000_000);
            assert_eq!(pp.source, PriceSource::Binance);
        }
        other => panic!("expected a sample, got {:?}", kind_of(&other)),
    }
}

fn kind_of(step: &ReadStep) -> &'static str {
    match step {
        ReadStep::Sample(_) => "sample",
        ReadStep::Skip => "skip",
        ReadStep::Fail(_) => "fail",
    }
}

#[test]
fn subscription_request_is_fixed() {
    let col = BinanceCollector::new("wss://example/ws".to_string());
    assert_eq!(
        col.subscription_request(),
        "{\"method\": \"SUBSCRIBE\", \"params\": [\"ethusdc@trade\"], \"id\": 1}"
    );
}

fn pp(ts: i64, price_e8: u64, source: PriceSource) -> PricePoint {
    PricePoint { timestamp_secs: ts, price_e8, source }
}

#[test]
fn single_source_passes_through() {
    let p = pp(10, 10_000_000_000, PriceSource::Binance);
    assert_eq!(combine_fetches(Ok(p), None, 99), Ok(p));
    assert_eq!(
        combine_fetches(Err(CollectorError::DataError), None, 99),
        Err(CollectorError::DataError)
    );
}

#[test]
fn both_sources_average() {
    let p = pp(10, 10_000_000_000, PriceSource::Binance);
    let s = pp(11, 10_100_000_000, PriceSource::Uniswap);
    let combined = combine_fetches(Ok(p), Some(Ok(s)), 42).unwrap();
    assert_eq!(combined.timestamp_secs, 42);
    assert_eq!(combined.price_e8, 10_050_000_000);
    assert_eq!(combined.source, PriceSource::Aggregated);
}

#[test]
fn secondary_covers_a_failed_primary() {
    let s = pp(11, 10_100_000_000, PriceSource::Uniswap);
    let combined = combine_fetches(Err(CollectorError::ConnectionError), Some(Ok(s)), 42);
    // The secondary's sample is returned verbatim.
    assert_eq!(combined, Ok(s));
}

#[test]
fn primary_covers_a_failed_secondary() {
    let p = pp(10, 10_000_000_000, PriceSource::Binance);
    let combined = combine_fetches(Ok(p), Some(Err(CollectorError::ConnectionError)), 42);
    assert_eq!(combined, Ok(p));
}

#[test]
fn both_failing_surfaces_the_primary_error() {
    let combined = combine_fetches(
        Err(CollectorError::DataError),
        Some(Err(CollectorError::ConnectionError)),
        42,
    );
    assert_eq!(combined, Err(CollectorError::DataError));
}

#[test]
fn read_loop_skips_to_the_first_trade() {
    let mut col = BinanceCollector::new("wss://example/ws".to_string());
    col.on_connect_result(true).unwrap();
    let events = vec![
        ReadEvent::Frame(Frame::Other),
        ReadEvent::Frame(Frame::Other),
        ReadEvent::Frame(Frame::Trade {
            price_text: b"100.5".to_vec(),
            timestamp_millis: 2_000,
        }),
        ReadEvent::Failed,
    ];
    let outcome = col.read_loop(events).unwrap().unwrap();
    assert_eq!(outcome.price_e8, 10_050_000_000);
    assert_eq!(outcome.timestamp_secs, 2);
    // The trailing transport failure was never reached.
    assert!(!col.needs_connect());
}

#[test]
fn read_loop_surfaces_a_transport_failure() {
    let mut col = BinanceCollector::new("wss://example/ws".to_string());
    col.on_connect_result(true).unwrap();
    let events = vec![ReadEvent::Frame(Frame::Other), ReadEvent::Failed];
    let outcome = col.read_loop(events).unwrap();
    assert_eq!(outcome, Err(CollectorError::ConnectionError));
    assert!(col.needs_connect());
}

#[test]
fn read_loop_with_only_skips_keeps_reading() {
    let mut col = BinanceCollector::new("wss://example/ws".to_string());
    col.on_connect_result(true).unwrap();
    let events = vec![ReadEvent::Frame(Frame::Other)];
    assert!(col.read_loop(events).is_none());
    assert!(!col.needs_connect());
}

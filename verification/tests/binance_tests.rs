use book_ingest::binance::{
    decimal_from_mantissa, parse_level, parse_rest_levels, resolve_diff_sequence, set_snapshot_state,
    BinanceConnectorAdapter, BinanceSyncState,
};
use book_ingest::error::ConnectorError;
use book_ingest::models::{DEFAULT_PRICE_SCALE, DEFAULT_QTY_SCALE};

fn push_u16_le(buf: &mut Vec<u8>, value: u16) {
    buf.extend_from_slice(&value.to_le_bytes());
}

fn push_i64_le(buf: &mut Vec<u8>, value: i64) {
    buf.extend_from_slice(&value.to_le_bytes());
}

fn build_diff_event_frame() -> Vec<u8> {
    let mut buf = Vec::new();

    push_u16_le(&mut buf, 26);
    push_u16_le(&mut buf, 10003);
    push_u16_le(&mut buf, 1);
    push_u16_le(&mut buf, 0);

    push_i64_le(&mut buf, 1_777_777_777_000_000);
    push_i64_le(&mut buf, 1001);
    push_i64_le(&mut buf, 1002);
    buf.push((-4i8) as u8);
    buf.push((-6i8) as u8);

    push_u16_le(&mut buf, 16);
    push_u16_le(&mut buf, 1);
    push_i64_le(&mut buf, 123_456);
    push_i64_le(&mut buf, 987_654);

    push_u16_le(&mut buf, 16);
    push_u16_le(&mut buf, 1);
    push_i64_le(&mut buf, 123_556);
    push_i64_le(&mut buf, 888_888);

    let symbol = b"BTCUSDT";
    buf.push(symbol.len() as u8);
    buf.extend_from_slice(symbol);

    buf
}

fn build_snapshot_event_frame() -> Vec<u8> {
    let mut buf = Vec::new();

    push_u16_le(&mut buf, 18);
    push_u16_le(&mut buf, 10002);
    push_u16_le(&mut buf, 1);
    push_u16_le(&mut buf, 0);

    push_i64_le(&mut buf, 1_777_777_777_000_000);
    push_i64_le(&mut buf, 5555);
    buf.push((-4i8) as u8);
    buf.push((-6i8) as u8);

    push_u16_le(&mut buf, 16);
    push_u16_le(&mut buf, 1);
    push_i64_le(&mut buf, 12_345);
    push_i64_le(&mut buf, 50_000);

    push_u16_le(&mut buf, 16);
    push_u16_le(&mut buf, 1);
    push_i64_le(&mut buf, 12_355);
    push_i64_le(&mut buf, 60_000);

    let symbol = b"ETHUSDT";
    buf.push(symbol.len() as u8);
    buf.extend_from_slice(symbol);

    buf
}

#[test]
fn parse_diff_event_decodes_symbol_and_scales_levels() {
    let mut adapter = BinanceConnectorAdapter::default();
    set_snapshot_state(&mut adapter.sync_state, "BTCUSDT", 1000);
    let frame = build_diff_event_frame();

    let event = adapter
        .parse_market_event(&frame)
        .expect("parse should not error")
        .expect("diff frame should decode");

    assert_eq!(event.exchange, "binance");
    assert_eq!(event.symbol, "BTCUSDT");
    assert!(!event.is_snapshot);
    assert_eq!(event.price_scale, DEFAULT_PRICE_SCALE);
    assert_eq!(event.size_scale, DEFAULT_QTY_SCALE);
    assert_eq!(event.seq_id, 1002);
    assert_eq!(event.prev_seq_id, 1000);
    assert_eq!(event.bids.len(), 1);
    assert_eq!(event.asks.len(), 1);
    assert_eq!(event.bids[0].price.0, 123_456);
    assert_eq!(event.bids[0].size.0, 987_654);
    assert_eq!(event.asks[0].price.0, 123_556);
    assert_eq!(event.asks[0].size.0, 888_888);
}

#[test]
fn parse_diff_event_is_ignored_without_snapshot_state() {
    let mut adapter = BinanceConnectorAdapter::default();
    let frame = build_diff_event_frame();

    let event = adapter
        .parse_market_event(&frame)
        .expect("parse should not error");

    assert!(event.is_none());
}

#[test]
fn parse_snapshot_event_template_is_supported() {
    let mut adapter = BinanceConnectorAdapter::default();
    let frame = build_snapshot_event_frame();

    let event = adapter
        .parse_market_event(&frame)
        .expect("parse should not error")
        .expect("snapshot frame should decode");

    assert_eq!(event.symbol, "ETHUSDT");
    assert!(event.is_snapshot);
    assert_eq!(event.seq_id, 5555);
    assert_eq!(event.prev_seq_id, 5555);
    assert_eq!(event.bids.len(), 1);
    assert_eq!(event.asks.len(), 1);
}

#[test]
fn parse_rest_levels_scales_values() {
    let levels = vec![("12.3456".to_string(), "0.500000".to_string())];
    let parsed = parse_rest_levels(&levels).expect("rest levels should parse");

    assert_eq!(parsed.len(), 1);
    assert_eq!(parsed[0].price.0, 123_456);
    assert_eq!(parsed[0].size.0, 500_000);
}

#[test]
fn snapshot_frame_then_bridging_diff_is_published() {
    let mut adapter = BinanceConnectorAdapter::default();
    let mut snapshot = build_snapshot_event_frame();
    // retag the snapshot as BTCUSDT with update id 1000
    let len = snapshot.len();
    snapshot.truncate(len - 8);
    snapshot.push(7);
    snapshot.extend_from_slice(b"btcusdt");
    snapshot[16..24].copy_from_slice(&1000i64.to_le_bytes());
    let snap = adapter.parse_market_event(&snapshot).unwrap().unwrap();
    assert_eq!(snap.symbol, "BTCUSDT");
    assert_eq!(snap.seq_id, 1000);
    assert_eq!(snap.bids[0].price.0, 12_345);
    assert_eq!(snap.bids[0].size.0, 50_000);
    assert_eq!(adapter.sync_state.get("BTCUSDT"), Some(&BinanceSyncState::AwaitingBridge { snapshot_last_update_id: 1000 }));

    let diff = adapter.parse_market_event(&build_diff_event_frame()).unwrap().unwrap();
    assert_eq!((diff.seq_id, diff.prev_seq_id), (1002, 1000));
    assert_eq!(adapter.sync_state.get("BTCUSDT"), Some(&BinanceSyncState::Synced { last_update_id: 1002 }));

    // the same diff again is stale
    assert!(adapter.parse_market_event(&build_diff_event_frame()).unwrap().is_none());
}

#[test]
fn resolve_diff_sequence_follows_the_protocol() {
    let mut adapter = BinanceConnectorAdapter::default();
    let map = &mut adapter.sync_state;
    assert_eq!(resolve_diff_sequence(map, "X", 1, 2), None);
    set_snapshot_state(map, "X", 100);
    // stale
    assert_eq!(resolve_diff_sequence(map, "X", 90, 100), None);
    // does not bridge 101
    assert_eq!(resolve_diff_sequence(map, "X", 102, 110), None);
    assert_eq!(map.get("X"), Some(&BinanceSyncState::AwaitingBridge { snapshot_last_update_id: 100 }));
    // bridges
    assert_eq!(resolve_diff_sequence(map, "X", 95, 105), Some((105, 100)));
    // contiguous
    assert_eq!(resolve_diff_sequence(map, "X", 106, 110), Some((110, 105)));
    // overlapping
    assert_eq!(resolve_diff_sequence(map, "X", 108, 112), Some((112, 110)));
    // gap: predecessor is first - 1
    assert_eq!(resolve_diff_sequence(map, "X", 120, 125), Some((125, 119)));
    assert_eq!(map.get("X"), Some(&BinanceSyncState::Synced { last_update_id: 125 }));
    // stale once synced
    assert_eq!(resolve_diff_sequence(map, "X", 1, 125), None);
}

#[test]
fn saturating_bridge_at_the_top_of_the_range() {
    let mut adapter = BinanceConnectorAdapter::default();
    let map = &mut adapter.sync_state;
    set_snapshot_state(map, "X", i64::MAX - 1);
    assert_eq!(resolve_diff_sequence(map, "X", i64::MAX, i64::MAX), Some((i64::MAX, i64::MAX - 1)));
}

#[test]
fn decimal_from_mantissa_cases() {
    assert_eq!(decimal_from_mantissa(-1, -2), None);
    let d = decimal_from_mantissa(123, -2).unwrap();
    assert_eq!((d.negative, d.mantissa, d.scale), (false, 123, 2));
    let d = decimal_from_mantissa(7, 3).unwrap();
    assert_eq!((d.negative, d.mantissa, d.scale), (false, 7000, 0));
    // 10^19 does not fit an i64
    assert_eq!(decimal_from_mantissa(1, 19), None);
    // the product does not fit a Decimal
    assert_eq!(decimal_from_mantissa(i64::MAX, 18), None);
}

#[test]
fn parse_level_of_mantissas() {
    let l = parse_level(123_456, 987_654, -4, -6).unwrap();
    assert_eq!((l.price.0, l.size.0), (123_456, 987_654));
    // 1.23455 * 10^4 = 12345.5 rounds to even
    let l = parse_level(123_455, 1, -5, 0).unwrap();
    assert_eq!((l.price.0, l.size.0), (12_346, 1_000_000));
    let l = parse_level(123_465, 1, -5, 0).unwrap();
    assert_eq!(l.price.0, 12_346);
    // negative mantissas give no level
    assert!(parse_level(-1, 1, 0, 0).is_none());
    // a price above u32 ticks gives no level
    assert!(parse_level(1_000_000, 1, 0, 0).is_none());
}

#[test]
fn rest_levels_errors() {
    let bad_price = vec![("abc".to_string(), "1".to_string())];
    match parse_rest_levels(&bad_price) {
        Err(ConnectorError::ParseError(m)) => assert!(m.starts_with("invalid binance price abc: ")),
        other => panic!("unexpected {:?}", other),
    }
    let bad_qty = vec![("1".to_string(), "x".to_string())];
    match parse_rest_levels(&bad_qty) {
        Err(ConnectorError::ParseError(m)) => assert!(m.starts_with("invalid binance qty x: ")),
        other => panic!("unexpected {:?}", other),
    }
    let big_price = vec![("500000".to_string(), "1".to_string())];
    match parse_rest_levels(&big_price) {
        Err(ConnectorError::ParseError(m)) => assert_eq!(m, "scaled price overflow for 500000"),
        other => panic!("unexpected {:?}", other),
    }
    let negative_qty = vec![("1".to_string(), "-2".to_string())];
    match parse_rest_levels(&negative_qty) {
        Err(ConnectorError::ParseError(m)) => assert_eq!(m, "scaled qty overflow for -2"),
        other => panic!("unexpected {:?}", other),
    }
}

#[test]
fn bootstrap_event_records_the_snapshot() {
    let mut adapter = BinanceConnectorAdapter::default();
    let bids = vec![("10.5".to_string(), "2".to_string())];
    let asks = vec![("10.6".to_string(), "3".to_string())];
    let e = adapter.bootstrap_event("ethusdt", 42, &bids, &asks, 7).unwrap();
    assert_eq!(e.symbol, "ETHUSDT");
    assert_eq!((e.seq_id, e.prev_seq_id, e.timestamp, e.is_snapshot), (42, 42, 7, true));
    assert_eq!(e.bids[0].price.0, 105_000);
    assert_eq!(e.asks[0].size.0, 3_000_000);
    assert_eq!(adapter.sync_state.get("ETHUSDT"), Some(&BinanceSyncState::AwaitingBridge { snapshot_last_update_id: 42 }));
    // a failing side records nothing
    let bad = vec![("?".to_string(), "1".to_string())];
    match adapter.bootstrap_event("solusdt", 1, &bad, &asks, 7) {
        Err(ConnectorError::ParseError(m)) => assert!(m.starts_with("invalid binance price ?: ")),
        other => panic!("unexpected {:?}", other),
    }
    assert!(adapter.sync_state.get("SOLUSDT").is_none());
}

#[test]
fn frames_that_are_not_sbe_depth_are_ignored() {
    let mut adapter = BinanceConnectorAdapter::default();
    assert!(adapter.parse_market_event(b"{\"result\":null}").unwrap().is_none());
    assert!(adapter.parse_market_event(&[1, 2, 3]).unwrap().is_none());
    let mut other_schema = build_snapshot_event_frame();
    other_schema[4] = 2;
    assert!(adapter.parse_market_event(&other_schema).unwrap().is_none());
    let mut other_template = build_snapshot_event_frame();
    other_template[2] = 0;
    assert!(adapter.parse_market_event(&other_template).unwrap().is_none());
    // a truncated frame is an error
    let mut truncated = build_snapshot_event_frame();
    truncated.truncate(30);
    match adapter.parse_market_event(&truncated) {
        Err(ConnectorError::Unknown(m)) => assert_eq!(m, "truncated depth snapshot frame"),
        other => panic!("unexpected {:?}", other),
    }
}

#[test]
fn invalid_utf8_symbols_read_as_unknown() {
    let mut adapter = BinanceConnectorAdapter::default();
    let mut frame = build_snapshot_event_frame();
    let len = frame.len();
    frame[len - 1] = 0xff;
    let e = adapter.parse_market_event(&frame).unwrap().unwrap();
    assert_eq!(e.symbol, "UNKNOWN");
}

#[test]
fn subscription_params_are_lower_case_depth_streams() {
    let adapter = BinanceConnectorAdapter::default();
    let p = adapter.subscription_params(&["BTCUSDT".to_string(), "EthUsdt".to_string()]);
    assert_eq!(p, vec!["btcusdt@depth".to_string(), "ethusdt@depth".to_string()]);
    assert_eq!(adapter.subscription_method(true), "UNSUBSCRIBE");
    assert_eq!(adapter.subscription_method(false), "SUBSCRIBE");
    assert_eq!(adapter.get_source_name(), "Binance");
    assert_eq!(adapter.bootstrap_symbol("btcusdt"), "BTCUSDT");
}

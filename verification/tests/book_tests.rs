use book_ingest::config::{IngestionController, PostgresDBConfig, QuestDBConfig};
use book_ingest::connection::{
    backoff_after_session, frame_action, next_backoff, routed_frame_action, ConnectorSession, FrameAction, FrameKind,
    OkxOrderBookDataStream, OkxStreamSession, RoutedFrameAction,
};
use book_ingest::levels::{Price, Size};
use book_ingest::worker::OrderBooksIndexerWorker;
use book_ingest::dbook::DecimalLevels;
use book_ingest::decimal::DecimalParts;
use book_ingest::l2book::{OrderBookActor, OrderBookCommand, OrderBookL2};
use book_ingest::models::BookState;
use book_ingest::okx_book::{Arg, AuditEvent, BookData, OkxBookWorker, OkxOrderBook, OkxOrderBookMesssage, OrderLevel};
use book_ingest::polymarket::{
    PolyCLOBAdapter, PolyCLOBConnectorAdapter, PolyCLOBMessage, PolyOrderBookL2Snapshot, PolyOrderBookL2Tick,
    PolyOrderBookSummary, PolyOrderBookTick,
};
use book_ingest::telemetry::{AuditLevel, ErrorPayload, ErrorSeverity, LogEventCategory, StandardEvent};

fn dec(m: u128, scale: u32) -> DecimalParts {
    DecimalParts { negative: false, mantissa: m, scale }
}

#[test]
fn decimal_levels_keep_value_order_and_first_key() {
    let mut side = DecimalLevels::new();
    side.insert(dec(150, 2), dec(1, 0));
    side.insert(dec(1, 0), dec(2, 0));
    side.insert(dec(15, 1), dec(3, 0));
    assert_eq!(side.len(), 2);
    // 1.5 was first written 1.50: that key stays, the size is replaced
    assert_eq!(side.keys, vec![dec(1, 0), dec(150, 2)]);
    assert_eq!(side.values, vec![dec(2, 0), dec(3, 0)]);
    side.remove(dec(10, 1));
    assert_eq!(side.keys, vec![dec(150, 2)]);
    side.modify(dec(15, 1), dec(0, 3));
    assert_eq!(side.len(), 0);
    side.insert(dec(3, 0), dec(1, 0));
    side.clear();
    assert_eq!(side.len(), 0);
}

#[test]
fn order_book_l2_modifies_one_side() {
    let mut book = OrderBookL2::new("polymarket".to_string());
    book.modify_bid(dec(5, 1), dec(10, 0));
    book.modify_asks(dec(6, 1), dec(11, 0));
    book.modify_bid(dec(5, 1), dec(0, 0));
    assert_eq!(book.bids.len(), 0);
    assert_eq!(book.asks.keys, vec![dec(6, 1)]);
}

fn summary(p: &str, s: &str) -> PolyOrderBookSummary {
    PolyOrderBookSummary { price: p.to_string(), size: s.to_string() }
}

fn poly_snapshot(asset: &str) -> PolyCLOBMessage {
    PolyCLOBMessage::Snapshot(PolyOrderBookL2Snapshot {
        market: "m".to_string(),
        asset_id: asset.to_string(),
        timestamp: "1".to_string(),
        hash: "h".to_string(),
        bids: vec![summary("0.48", "30"), summary("0.49", "20")],
        asks: vec![summary("0.52", "25"), summary("0.53", "oops")],
        event_type: "book".to_string(),
        last_trade_price: "0.5".to_string(),
    })
}

fn tick(asset: &str, side: &str, p: &str, s: &str) -> PolyOrderBookTick {
    PolyOrderBookTick {
        asset_id: asset.to_string(),
        price: p.to_string(),
        size: s.to_string(),
        side: side.to_string(),
        hash: "h".to_string(),
        best_bid: "0".to_string(),
        best_ask: "0".to_string(),
    }
}

#[test]
fn actor_applies_polymarket_messages() {
    let mut actor = OrderBookActor::new(PolyCLOBAdapter);
    assert_eq!(actor.book_core.exchange, "polymarket");
    actor.book_core.instrument_id = "asset1".to_string();

    let out = actor.process(OrderBookCommand::Update(Some(poly_snapshot("asset1"))), None);
    assert!(out.audit.is_none() && out.restart.is_none() && out.snapshot.is_none());
    assert_eq!(actor.state, BookState::Synced);
    assert_eq!(actor.book_core.bids.keys, vec![dec(48, 2), dec(49, 2)]);
    // a size that does not parse counts as zero: a removal
    assert_eq!(actor.book_core.asks.keys, vec![dec(52, 2)]);

    let ticks = PolyCLOBMessage::L2Tick(PolyOrderBookL2Tick {
        market: "m".to_string(),
        price_changes: vec![
            tick("asset1", "BUY", "0.49", "0"),
            tick("asset1", "SELL", "0.51", "5"),
            tick("other", "BUY", "0.10", "5"),
            tick("asset1", "HOLD", "0.10", "5"),
        ],
        timestamp: "2".to_string(),
        event_type: "price_change".to_string(),
    });
    actor.process(OrderBookCommand::Update(Some(ticks)), None);
    assert_eq!(actor.state, BookState::Synced);
    assert_eq!(actor.book_core.bids.keys, vec![dec(48, 2)]);
    assert_eq!(actor.book_core.asks.keys, vec![dec(51, 2), dec(52, 2)]);

    // a snapshot of another asset changes nothing
    actor.process(OrderBookCommand::Update(Some(poly_snapshot("asset2"))), None);
    assert_eq!(actor.book_core.asks.keys, vec![dec(51, 2), dec(52, 2)]);

    // unparsed updates change nothing
    actor.process(OrderBookCommand::Update(None), None);
    assert_eq!(actor.state, BookState::Synced);

    // snapshots need a parsable exchange time
    assert!(actor.process(OrderBookCommand::TakeSnapShot, Some(5)).snapshot.is_none());
    actor.book_core.ts = "1700".to_string();
    let snap = actor.process(OrderBookCommand::TakeSnapShot, Some(5)).snapshot.unwrap();
    assert_eq!((snap.exchange_ts, snap.timestamp), (1_700_000_000, 5));
    assert_eq!(snap.bids, vec![vec![dec(48, 2)], vec![dec(30, 0)]]);
    assert_eq!(snap.asks, vec![vec![dec(51, 2)], vec![dec(5, 0)]]);
    assert!(actor.process(OrderBookCommand::TakeSnapShot, None).snapshot.is_none());

    // a corrupted book asks for a restart and awaits a snapshot, which empties it first
    actor.state = BookState::Corrupted;
    let out = actor.process(OrderBookCommand::Update(Some(poly_snapshot("asset1"))), None);
    assert_eq!(out.restart, Some("asset1".to_string()));
    assert_eq!(actor.state, BookState::AwaitingSnapshot);
    actor.process(OrderBookCommand::Update(Some(poly_snapshot("asset1"))), None);
    assert_eq!(actor.book_core.asks.keys, vec![dec(52, 2)]);
    assert_eq!(actor.state, BookState::Synced);
}

#[test]
fn polymarket_connector_words() {
    let c = PolyCLOBConnectorAdapter;
    assert_eq!(c.get_url(), "wss://ws-subscriptions-clob.polymarket.com/ws/market");
    assert_eq!(c.subscription_operation(true), "unsubscribe");
    assert_eq!(c.subscription_operation(false), "subscribe");
}

fn lv(p: &str, s: &str) -> OrderLevel {
    OrderLevel { price: p.to_string(), size: s.to_string(), liquid_price: "0".to_string(), count: "1".to_string() }
}

fn push(action: &str, inst: &str, data: Vec<BookData>) -> OkxOrderBookMesssage {
    OkxOrderBookMesssage { arg: Arg { channel: "books".to_string(), inst_id: inst.to_string() }, action: action.to_string(), data }
}

fn delta(bids: Vec<OrderLevel>, asks: Vec<OrderLevel>, checksum: i32, seq: i64, prev: i64) -> BookData {
    BookData { asks, bids, ts: "1597026383085".to_string(), checksum, seq_id: seq, prev_seq_id: prev }
}

#[test]
fn okx_checksum_matches_the_documented_example() {
    let mut book = OkxOrderBook::new("BTC-USDT".to_string());
    book.updates(&delta(vec![lv("3366.10", "7"), lv("3366", "6")], vec![lv("3366.8", "9"), lv("3368", "8")], 0, 1, 0));
    assert_eq!(book.calculate_local_checksum(), -1881014294);
    // an empty book hashes the empty string
    assert_eq!(OkxOrderBook::new("X".to_string()).calculate_local_checksum(), 0);
}

#[test]
fn okx_worker_checks_sequences_and_checksums() {
    let mut w = OkxBookWorker::new(OkxOrderBook::new("OLD".to_string()));
    let snap = push(
        "snapshot",
        "BTC-USDT-SWAP",
        vec![delta(vec![lv("3366.1", "7"), lv("3366", "6")], vec![lv("3366.8", "9"), lv("3368", "8")], 0, 99, -1)],
    );
    let out = w.handle(OrderBookCommand::Update(Some(snap)), None);
    assert!(out.alerts.is_empty());
    assert_eq!(w.book.instrument_id, "BTC-USDT-SWAP");
    assert_eq!(w.local_previous_seq_id, 99);
    assert_eq!(w.book.ts, "1597026383085");

    // the id after 99 is 100: the checksum is checked, and it matches
    let ok = push("update", "BTC-USDT-SWAP", vec![delta(vec![], vec![], -1881014294, 100, 99)]);
    assert!(w.handle(OrderBookCommand::Update(Some(ok)), None).alerts.is_empty());

    // a gap and, at 200, a wrong checksum
    let bad = push("update", "BTC-USDT-SWAP", vec![delta(vec![lv("3366", "0")], vec![], 5, 200, 150)]);
    let out = w.handle(OrderBookCommand::Update(Some(bad)), None);
    assert_eq!(out.alerts.len(), 2);
    match &out.alerts[0] {
        AuditEvent::SeqIdGap { symbol, expected, actual } => {
            assert_eq!((symbol.as_str(), *expected, *actual), ("BTC-USDT-SWAP", 150, 100))
        },
        other => panic!("unexpected {:?}", other),
    }
    match &out.alerts[1] {
        AuditEvent::CheckSumFailure { symbol, expected, .. } => assert_eq!((symbol.as_str(), *expected), ("BTC-USDT-SWAP", 5)),
        other => panic!("unexpected {:?}", other),
    }
    assert_eq!(w.book.bids.len(), 1);

    // other actions and unparsed pushes change nothing
    let other = push("partial", "X", vec![delta(vec![lv("1", "1")], vec![], 0, 1, 1)]);
    assert!(w.handle(OrderBookCommand::Update(Some(other)), None).alerts.is_empty());
    assert_eq!(w.book.bids.len(), 1);
    assert!(w.handle(OrderBookCommand::Update(None), None).alerts.is_empty());

    let s = w.handle(OrderBookCommand::TakeSnapShot, Some(3)).snapshot.unwrap();
    assert_eq!(s.instrument_id, "BTC-USDT-SWAP");
    assert_eq!(s.exchange_ts, 1_597_026_383_085_000_000);
    assert_eq!(s.bids[0].len(), 1);
}

#[test]
fn backoff_and_frames() {
    assert_eq!(next_backoff(1), 2);
    assert_eq!(next_backoff(32), 60);
    assert_eq!(next_backoff(60), 60);
    assert_eq!(backoff_after_session(16, 100, 30), 1);
    assert_eq!(backoff_after_session(16, 10, 30), 16);
    assert_eq!(frame_action(FrameKind::Text), FrameAction::Parse);
    assert_eq!(frame_action(FrameKind::Binary), FrameAction::Parse);
    assert_eq!(frame_action(FrameKind::Ping), FrameAction::ReplyPong);
    assert_eq!(frame_action(FrameKind::Pong), FrameAction::EndConnection);
    assert_eq!(frame_action(FrameKind::Close), FrameAction::EndConnection);
}

#[test]
fn restart_signals_resubscribe_known_instruments() {
    let mut session = ConnectorSession::new("Bybit".to_string());
    session.record_subscriptions(&["BTCUSDT".to_string(), "ETHUSDT".to_string()]);
    assert_eq!(session.on_restart_signal("bybit", "BTCUSDT"), Some("BTCUSDT".to_string()));
    assert_eq!(session.on_restart_signal("okx", "BTCUSDT"), None);
    assert_eq!(session.on_restart_signal("BYBIT", "SOLUSDT"), None);

    let mut okx = OkxStreamSession::new();
    assert_eq!(okx.on_restart_signal("A".to_string()), vec!["A".to_string()]);
    assert_eq!(okx.on_restart_signal("B".to_string()), vec!["A".to_string(), "B".to_string()]);
}

fn key(id: &[u8; 13]) -> u128 {
    let mut chunk = [0u8; 16];
    chunk[..13].copy_from_slice(id);
    u128::from_le_bytes(chunk)
}

#[test]
fn okx_stream_routes_by_instrument() {
    let stream = OkxOrderBookDataStream::new(vec![
        (key(b"BTC-USDT-SWAP"), "BTC-USDT-SWAP".to_string()),
        (key(b"ETH-USDT-SWAP"), "ETH-USDT-SWAP".to_string()),
    ]);
    let msg = br#"{"arg":{"channel":"books","instId":"ETH-USDT-SWAP"},"action":"update","data":[]}"#;
    assert_eq!(stream.route_message(msg), vec!["ETH-USDT-SWAP".to_string()]);
    let unknown = br#"{"arg":{"channel":"books","instId":"XRP-USDT-SWAP"}}"#;
    assert!(stream.route_message(unknown).is_empty());
    assert!(stream.route_message(b"pong").is_empty());
    let short = br#"{"arg":{"channel":"books","instId":"BTC-USDT"}}"#;
    assert!(stream.try_route_message(short).is_err());
    assert_eq!(stream.try_route_message(msg).unwrap(), vec!["ETH-USDT-SWAP".to_string()]);
    assert_eq!(stream.text_reply("ping"), Some("pong"));
    assert_eq!(stream.text_reply("pong"), None);
    assert_eq!(stream.heartbeat_text(), "PING");
}

#[test]
fn configuration_strings() {
    let q = QuestDBConfig::from_parts("localhost", "9000", "9009");
    assert_eq!(q.db_url, "http::addr=localhost:9000;username=admin;password=quest;");
    assert_eq!(q.ilp_url, "http::addr=localhost:9009;username=admin;password=quest;");
    let p = PostgresDBConfig::from_parts("db", "5432", "u", "pw", "books");
    assert_eq!(p.db_url, "postgresql://u:pw@db:5432/books");
    let c = IngestionController::new(7u8);
    assert_eq!(c.backend, 7);
}

#[test]
fn telemetry_vocabulary() {
    assert_eq!(AuditLevel::Critical.as_ref(), "critical");
    assert_eq!(AuditLevel::Info.as_ref(), "info");
    assert_eq!(LogEventCategory::Audit.as_ref(), "LogEventCategory::Audit");
    let p = ErrorPayload::new("audit_error", "boom", ErrorSeverity::Recoverable, true);
    assert_eq!((p.error_code, p.messsage, p.severity, p.is_retryable), ("audit_error", "boom", ErrorSeverity::Recoverable, true));
    let e = StandardEvent::new(LogEventCategory::System, "shutdown".to_string(), "svc".to_string(), 3u8);
    assert_eq!((e.version, e.data), ("1.0", 3));
}

#[test]
fn routed_connections_and_unscaled_values() {
    assert_eq!(routed_frame_action(FrameKind::Text), RoutedFrameAction::Route);
    assert_eq!(routed_frame_action(FrameKind::Binary), RoutedFrameAction::Ignore);
    assert_eq!(routed_frame_action(FrameKind::Pong), RoutedFrameAction::Ignore);
    assert_eq!(routed_frame_action(FrameKind::Ping), RoutedFrameAction::ReplyPong);
    assert_eq!(routed_frame_action(FrameKind::ReadError), RoutedFrameAction::EndConnection);
    let mut session = ConnectorSession::new(String::new());
    assert_eq!(session.subscribed("asset"), None);
    session.record_subscriptions(&["asset".to_string()]);
    assert_eq!(session.subscribed("asset"), Some("asset".to_string()));

    let p = OrderBooksIndexerWorker::decimal_from_price(Price(123_456), 10_000).unwrap();
    assert_eq!((p.negative, p.mantissa, p.scale), (false, 123_456, 4));
    let z = OrderBooksIndexerWorker::decimal_from_price(Price(5), 0).unwrap();
    assert_eq!((z.mantissa, z.scale), (0, 0));
    let s = OrderBooksIndexerWorker::decimal_from_size(Size(500_000), 1_000_000).unwrap();
    assert_eq!((s.mantissa, s.scale), (50, 2));
}

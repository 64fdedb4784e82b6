use book_ingest::indexer::OrderBookIndexer;
use book_ingest::levels::{BookLevel, BookSide, OrderBookData, Price, Size};
use book_ingest::models::{BookState, NormalizedBookEvent, OrderBookCommand, DEFAULT_PRICE_SCALE, DEFAULT_QTY_SCALE};
use book_ingest::worker::{sequence_gap_message, sequence_gap_topic, OrderBooksIndexerWorker};

#[test]
fn new_book_must_not_collide_across_exchanges() {
    let mut indexer = OrderBookIndexer::new();

    let bybit = indexer.new_book("bybit".to_string(), "BTCUSDT".to_string());
    let okx = indexer.new_book("okx".to_string(), "BTCUSDT".to_string());

    assert_ne!(
        bybit, okx,
        "same symbol on different exchanges must be distinct"
    );
}

#[test]
fn best_levels_should_be_top_of_book() {
    let mut indexer = OrderBookIndexer::new();
    let symbol_id = indexer.new_book("bybit".to_string(), "SOLUSDT".to_string());

    indexer.appy_book_update(symbol_id, Price(100), Size(1), BookSide::Bid);
    indexer.appy_book_update(symbol_id, Price(101), Size(2), BookSide::Bid);
    indexer.appy_book_update(symbol_id, Price(103), Size(1), BookSide::Ask);
    indexer.appy_book_update(symbol_id, Price(102), Size(2), BookSide::Ask);

    let key = OrderBookIndexer::symbol_key("bybit", "SOLUSDT");
    assert_eq!(indexer.best_bid(&key), Some((Price(101), Size(2))));
    assert_eq!(indexer.best_ask(&key), Some((Price(102), Size(2))));
}

#[test]
fn new_book_returns_the_same_id_for_the_same_key() {
    let mut indexer = OrderBookIndexer::new();
    let a = indexer.new_book("okx".to_string(), "ETH".to_string());
    let b = indexer.new_book("okx".to_string(), "ETH".to_string());
    assert_eq!(a, b);
    assert_eq!(indexer.symbol_count(), 1);
    assert_eq!(OrderBookIndexer::symbol_key("okx", "ETH"), "okx:ETH");
}

#[test]
fn zero_size_removes_and_truncate_keeps_the_best() {
    let mut indexer = OrderBookIndexer::new();
    let id = indexer.new_book("x".to_string(), "Y".to_string());
    for p in [10u32, 12, 11, 9] {
        indexer.apply_book_update(id, Price(p), Size(1), BookSide::Bid);
    }
    indexer.apply_book_update(id, Price(12), Size(0), BookSide::Bid);
    let key = OrderBookIndexer::symbol_key("x", "Y");
    assert_eq!(indexer.best_bid(&key), Some((Price(11), Size(1))));
    indexer.truncate_book_depth(id, 1);
    indexer.apply_book_update(id, Price(11), Size(0), BookSide::Bid);
    assert_eq!(indexer.best_bid(&key), None);
    indexer.apply_book_update(id, Price(5), Size(3), BookSide::Ask);
    indexer.clear_book(id);
    assert_eq!(indexer.best_ask(&key), None);
    assert_eq!(indexer.best_bid("unknown:key"), None);
}

#[test]
fn order_book_data_keeps_sorted_levels() {
    let mut asks = OrderBookData::new();
    asks.apply_level(BookSide::Ask, Price(5), Size(1));
    asks.apply_level(BookSide::Ask, Price(3), Size(2));
    asks.apply_level(BookSide::Ask, Price(4), Size(3));
    asks.apply_level(BookSide::Ask, Price(3), Size(7));
    assert_eq!(asks.prices, vec![Price(3), Price(4), Price(5)]);
    assert_eq!(asks.sizes, vec![Size(7), Size(3), Size(1)]);
    assert_eq!(asks.best(), Some((Price(3), Size(7))));
    asks.truncate_levels(BookSide::Ask, 2);
    assert_eq!(asks.prices, vec![Price(3), Price(4)]);
}

fn event(exchange: &str, seq: i64, prev: i64, snapshot: bool, bids: Vec<BookLevel>, asks: Vec<BookLevel>) -> NormalizedBookEvent {
    NormalizedBookEvent {
        exchange: exchange.to_string(),
        symbol: "BTCUSDT".to_string(),
        timestamp: 1_700,
        seq_id: seq,
        prev_seq_id: prev,
        is_snapshot: snapshot,
        price_scale: DEFAULT_PRICE_SCALE,
        size_scale: DEFAULT_QTY_SCALE,
        bids,
        asks,
    }
}

fn lvl(p: u32, s: u64) -> BookLevel {
    BookLevel { price: Price(p), size: Size(s) }
}

#[test]
fn worker_ignores_updates_before_a_snapshot_and_detects_gaps() {
    let mut w = OrderBooksIndexerWorker::new();
    let key = OrderBookIndexer::symbol_key("bybit", "BTCUSDT");

    let out = w.handle_event(event("bybit", 5, 4, false, vec![lvl(100, 1)], vec![]), Some(1));
    assert!(out.ticks.is_empty() && out.gap.is_none());
    assert_eq!(w.book_indexer.best_bid(&key), None);

    let out = w.handle_event(event("bybit", 10, 10, true, vec![lvl(100, 1)], vec![lvl(101, 1)]), Some(1));
    assert!(out.ticks.is_empty() && out.gap.is_none());
    assert_eq!(w.book_indexer.best_bid(&key), Some((Price(100), Size(1))));

    let out = w.handle_event(event("bybit", 11, 10, false, vec![lvl(100, 0), lvl(99, 4)], vec![]), Some(2));
    assert!(out.gap.is_none());
    assert_eq!(out.ticks.len(), 2);
    assert_eq!(out.ticks[1].price, Price(99));
    assert_eq!(out.ticks[1].timestamp, 1_700 * 1_000_000);
    assert_eq!(w.book_indexer.best_bid(&key), Some((Price(99), Size(4))));

    let out = w.handle_event(event("bybit", 20, 15, false, vec![lvl(98, 1)], vec![]), Some(3));
    let gap = out.gap.expect("gap");
    assert_eq!((gap.exchange.as_str(), gap.instrument_id.as_str()), ("bybit", "BTCUSDT"));
    assert!(out.ticks.is_empty());
    assert_eq!(w.book_indexer.best_bid(&key), Some((Price(99), Size(4))));
    let cursor = w.symbol_cursors.get(key.as_str()).unwrap();
    assert_eq!(cursor.state, BookState::AwaitingSnapshot);

    assert_eq!(sequence_gap_topic(), "SequenceIdGap");
    assert_eq!(sequence_gap_message("bybit", "BTCUSDT"), "Detected sequence gap for bybit:BTCUSDT");
}

#[test]
fn worker_snapshots_publish_synced_books() {
    let mut w = OrderBooksIndexerWorker::new();
    let none = w.process(OrderBookCommand::TakeSnapShot, Some(9));
    assert!(none.snapshots.is_empty());
    w.process(OrderBookCommand::Update(event("okx", 1, 0, true, vec![lvl(10, 1), lvl(11, 2)], vec![lvl(12, 3)])), Some(1));
    let out = w.process(OrderBookCommand::TakeSnapShot, Some(9));
    assert_eq!(out.snapshots.len(), 1);
    let s = &out.snapshots[0];
    assert_eq!(s.exchange, "okx");
    assert_eq!(s.receipt_time, 9);
    assert_eq!(s.timestamp, 1_700_000_000);
    assert_eq!(s.bids, vec![lvl(11, 2), lvl(10, 1)]);
    assert_eq!(s.asks, vec![lvl(12, 3)]);
    assert!(w.process(OrderBookCommand::TakeSnapShot, None).snapshots.is_empty());
}

#[test]
fn binance_books_keep_their_local_depth_and_publish_only_top_ticks() {
    let mut w = OrderBooksIndexerWorker::new();
    let bids: Vec<BookLevel> = (1..=30u32).map(|p| lvl(p, 1)).collect();
    w.handle_event(event("binance", 1, 1, true, bids, vec![]), Some(1));
    // a change below the published depth of 20 is applied but not published
    let out = w.handle_event(event("binance", 2, 1, false, vec![lvl(5, 9), lvl(30, 9)], vec![]), Some(2));
    assert_eq!(out.ticks.len(), 1);
    assert_eq!(out.ticks[0].price, Price(30));
}

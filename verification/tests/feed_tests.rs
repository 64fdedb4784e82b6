use book_ingest::bybit::{BybitBookMessage, BybitBookMessageData, BybitConnectorAdapter};
use book_ingest::decimal::{level_from_strings, level_scalable};
use book_ingest::okx::{Arg, OkxBookData, OkxConnectorAdapter, OkxOrderBookMesssage, OkxOrderLevel};
use book_ingest::text::{eq_ignore_ascii_case, parse_i64, str_eq};

fn row(p: &str, s: &str) -> Vec<String> {
    vec![p.to_string(), s.to_string()]
}

fn bybit_message(kind: &str, bids: Vec<Vec<String>>, asks: Vec<Vec<String>>) -> BybitBookMessage {
    BybitBookMessage {
        topic: "orderbook.50.BTCUSDT".to_string(),
        event_type: kind.to_string(),
        ts: 1_672_304_484_978,
        data: BybitBookMessageData { s: "BTCUSDT".to_string(), b: bids, a: asks, u: 177_400_507, seq: 66_544_703_342 },
        cts: 1_672_304_484_976,
    }
}

#[test]
fn bybit_snapshot_is_normalized() {
    let adapter = BybitConnectorAdapter;
    let m = bybit_message("snapshot", vec![row("16493.50", "0.006"), row("bad", "1")], vec![row("16611.00", "0.029")]);
    let e = adapter.parse_market_event(&m).unwrap().unwrap();
    assert_eq!(e.exchange, "bybit");
    assert_eq!(e.symbol, "BTCUSDT");
    assert!(e.is_snapshot);
    assert_eq!((e.seq_id, e.prev_seq_id, e.timestamp), (177_400_507, 177_400_506, 1_672_304_484_978));
    assert_eq!(e.bids.len(), 1);
    assert_eq!((e.bids[0].price.0, e.bids[0].size.0), (164_935_000, 6_000));
    assert_eq!((e.asks[0].price.0, e.asks[0].size.0), (166_110_000, 29_000));
}

#[test]
fn bybit_delta_and_ignored_messages() {
    let adapter = BybitConnectorAdapter;
    let m = bybit_message("delta", vec![row("1", "0")], vec![]);
    let e = adapter.normalize(&m).unwrap();
    assert!(!e.is_snapshot);
    assert_eq!((e.bids[0].price.0, e.bids[0].size.0), (10_000, 0));
    let mut no_symbol = bybit_message("delta", vec![], vec![]);
    no_symbol.data.s = String::new();
    assert!(adapter.parse_market_event(&no_symbol).unwrap().is_none());
    let mut min_update = bybit_message("delta", vec![], vec![]);
    min_update.data.u = i64::MIN;
    assert_eq!(adapter.normalize(&min_update).unwrap().prev_seq_id, i64::MIN);
    // a price too large for a u32 of ticks is skipped; one that overflows a Decimal is an error
    let huge = bybit_message("delta", vec![row("1000000", "1")], vec![]);
    assert!(adapter.normalize(&huge).unwrap().bids.is_empty());
    let overflow = bybit_message("delta", vec![row("79228162514264337593543950335", "1")], vec![]);
    assert!(adapter.parse_market_event(&overflow).is_err());
}

#[test]
fn bybit_subscriptions() {
    let adapter = BybitConnectorAdapter;
    assert_eq!(adapter.subscription_args(&["BTCUSDT".to_string()]), vec!["orderbook.50.BTCUSDT".to_string()]);
    assert_eq!(adapter.subscription_op(true), "unsubscribe");
    assert_eq!(adapter.subscription_op(false), "subscribe");
    assert_eq!(adapter.get_source_name(), "Bybit");
}

fn okx_level(p: &str, s: &str) -> OkxOrderLevel {
    OkxOrderLevel { price: p.to_string(), size: s.to_string(), liquid_price: "0".to_string(), count: "1".to_string() }
}

#[test]
fn okx_push_is_normalized() {
    let adapter = OkxConnectorAdapter;
    let m = OkxOrderBookMesssage {
        arg: Arg { channel: "books".to_string(), inst_id: "BTC-USDT".to_string() },
        action: "update".to_string(),
        data: vec![
            OkxBookData {
                asks: vec![okx_level("8476.98", "415")],
                bids: vec![okx_level("8476.97", "256"), okx_level("x", "1")],
                ts: "1597026383085".to_string(),
                checksum: -855196043,
                seq_id: 123457,
                prev_seq_id: 123456,
            },
            OkxBookData {
                asks: vec![],
                bids: vec![okx_level("8476.96", "1")],
                ts: "junk".to_string(),
                checksum: 0,
                seq_id: 9,
                prev_seq_id: 8,
            },
        ],
    };
    let e = adapter.parse_market_event(&m).unwrap().unwrap();
    assert_eq!(e.exchange, "okx");
    assert_eq!(e.symbol, "BTC-USDT");
    assert!(!e.is_snapshot);
    assert_eq!((e.seq_id, e.prev_seq_id, e.timestamp), (123457, 123456, 1597026383085));
    assert_eq!(e.bids.len(), 2);
    assert_eq!((e.bids[0].price.0, e.bids[0].size.0), (84_769_700, 256_000_000));
    assert_eq!(e.bids[1].price.0, 84_769_600);
    assert_eq!(e.asks[0].price.0, 84_769_800);
}

#[test]
fn okx_ignored_pushes_and_bad_time() {
    let adapter = OkxConnectorAdapter;
    let empty = OkxOrderBookMesssage {
        arg: Arg { channel: "books".to_string(), inst_id: "BTC-USDT".to_string() },
        action: "snapshot".to_string(),
        data: vec![],
    };
    assert!(adapter.parse_market_event(&empty).unwrap().is_none());
    let bad_ts = OkxOrderBookMesssage {
        arg: Arg { channel: "books".to_string(), inst_id: "ETH-USDT".to_string() },
        action: "snapshot".to_string(),
        data: vec![OkxBookData { asks: vec![], bids: vec![], ts: "12a".to_string(), checksum: 0, seq_id: 1, prev_seq_id: -1 }],
    };
    let e = adapter.normalize(&bad_ts).unwrap();
    assert!(e.is_snapshot);
    assert_eq!(e.timestamp, 0);
    assert_eq!(adapter.subscription_channel(), "books");
    assert_eq!(adapter.subscription_op(true), "unsubscribe");
    assert_eq!(adapter.get_source_name(), "Okx");
}

#[test]
fn decimal_levels_round_half_to_even() {
    let l = level_from_strings("0.00005", "0.0000005").unwrap();
    assert_eq!((l.price.0, l.size.0), (0, 0));
    let l = level_from_strings("0.00015", "0.0000015").unwrap();
    assert_eq!((l.price.0, l.size.0), (2, 2));
    let l = level_from_strings("-0", "1e3").unwrap();
    assert_eq!((l.price.0, l.size.0), (0, 1_000_000_000));
    assert!(level_from_strings("-1", "1").is_none());
    assert!(level_from_strings("1", "nope").is_none());
    assert!(level_scalable("1", "1"));
    assert!(!level_scalable("79228162514264337593543950335", "1"));
}

#[test]
fn text_helpers() {
    assert_eq!(parse_i64("-42"), Some(-42));
    assert_eq!(parse_i64("+7"), Some(7));
    assert_eq!(parse_i64("9223372036854775807"), Some(i64::MAX));
    assert_eq!(parse_i64("-9223372036854775808"), Some(i64::MIN));
    assert_eq!(parse_i64("9223372036854775808"), None);
    assert_eq!(parse_i64(""), None);
    assert_eq!(parse_i64("-"), None);
    assert_eq!(parse_i64("1 "), None);
    assert!(str_eq("abc", "abc"));
    assert!(!str_eq("abc", "abd"));
    assert!(eq_ignore_ascii_case("BiNaNcE", "binance"));
    assert!(!eq_ignore_ascii_case("binanc", "binance"));
    assert!(!eq_ignore_ascii_case("bybit", "okx"));
}

//! Normalised book events and the small value types shared by the pipeline.

use vstd::prelude::*;
use crate::levels::BookLevel;

verus! {

/// Default number of price ticks per unit of price.
pub const DEFAULT_PRICE_SCALE: u32 = 10_000;

/// Default number of size units per unit of quantity.
pub const DEFAULT_QTY_SCALE: u64 = 1_000_000;

/// Levels per side published in snapshots for most exchanges.
pub const DEFAULT_PUBLISH_DEPTH: usize = 50;

/// Levels per side kept in the local Binance book.
pub const BINANCE_LOCAL_BOOK_DEPTH: usize = 200;

/// Levels per side published for Binance.
pub const BINANCE_PUBLISH_DEPTH: usize = 20;

/// A book update in exchange-independent form: scaled integer levels plus the
/// sequence numbers used to detect gaps.
#[derive(Debug, Clone)]
pub struct NormalizedBookEvent {
    pub exchange: String,
    pub symbol: String,
    pub timestamp: i64,
    pub seq_id: i64,
    pub prev_seq_id: i64,
    pub is_snapshot: bool,
    pub price_scale: u32,
    pub size_scale: u64,
    pub bids: Vec<BookLevel>,
    pub asks: Vec<BookLevel>,
}

/// `e` is the event with these fields and the default price and size
/// scales.
pub open spec fn is_event(
    e: NormalizedBookEvent,
    exchange: Seq<char>,
    symbol: Seq<char>,
    timestamp: i64,
    seq_id: i64,
    prev_seq_id: i64,
    is_snapshot: bool,
    bids: Seq<BookLevel>,
    asks: Seq<BookLevel>,
) -> bool {
    &&& e.exchange@ == exchange
    &&& e.symbol@ == symbol
    &&& e.timestamp == timestamp
    &&& e.seq_id == seq_id
    &&& e.prev_seq_id == prev_seq_id
    &&& e.is_snapshot == is_snapshot
    &&& e.price_scale == DEFAULT_PRICE_SCALE
    &&& e.size_scale == DEFAULT_QTY_SCALE
    &&& e.bids@ == bids
    &&& e.asks@ == asks
}

/// Asks the connector of `exchange` to resubscribe `instrument_id`.
#[derive(Debug, Clone)]
pub struct RestartSignal {
    pub exchange: String,
    pub instrument_id: String,
}

/// What the book worker is asked to do.
#[derive(Debug)]
pub enum OrderBookCommand {
    Update(NormalizedBookEvent),
    TakeSnapShot,
}

impl OrderBookCommand {
    /// The command's name.
    pub fn as_ref(&self) -> (r: &'static str)
        ensures
            r@ == (match self {
                OrderBookCommand::Update(_) => "Update"@,
                OrderBookCommand::TakeSnapShot => "Snapshot"@,
            }),
    {
        match self {
            OrderBookCommand::Update(_) => "Update",
            OrderBookCommand::TakeSnapShot => "Snapshot",
        }
    }
}

/// Synchronisation state of one symbol's local book.
#[derive(Debug, PartialEq, Eq, Structural, Clone, Copy)]
pub enum BookState {
    AwaitingSnapshot,
    Synced,
    Corrupted,
}

impl BookState {
    /// The state's name.
    pub fn as_ref(&self) -> (r: &'static str)
        ensures
            r@ == (match self {
                BookState::AwaitingSnapshot => "BookState::AwaitingSnapshot"@,
                BookState::Synced => "BookState::Synced"@,
                BookState::Corrupted => "BookState::Corrupted"@,
            }),
    {
        match self {
            BookState::AwaitingSnapshot => "BookState::AwaitingSnapshot",
            BookState::Synced => "BookState::Synced",
            BookState::Corrupted => "BookState::Corrupted",
        }
    }
}

/// Connection and parsing counters of an exchange feed.
#[derive(Debug)]
pub struct IndexerStats {
    pub ws_connects: u64,
    pub ws_reconnects: u64,
    pub frames_total: u64,
    pub frames_parsed: u64,
    pub parse_errors: u64,
    pub snapshots_seen: u64,
    pub ticks_seen: u64,
    pub last_trade_seen: u64,
    pub resolved_seen: u64,
    pub resolved_tokens_seen: u64,
    pub subscribe_sent: u64,
    pub unsubscribe_sent: u64,
    pub book_updates_applied: u64,
    pub side_parse_errors: u64,
    pub value_parse_errors: u64,
    pub socket_read_errors: u64,
    pub socket_write_errors: u64,
}

impl Default for IndexerStats {
    fn default() -> (r: Self)
        ensures
            r.ws_connects == 0 && r.ws_reconnects == 0 && r.frames_total == 0 && r.frames_parsed == 0,
            r.parse_errors == 0 && r.snapshots_seen == 0 && r.ticks_seen == 0 && r.last_trade_seen == 0,
            r.resolved_seen == 0 && r.resolved_tokens_seen == 0 && r.subscribe_sent == 0,
            r.unsubscribe_sent == 0 && r.book_updates_applied == 0 && r.side_parse_errors == 0,
            r.value_parse_errors == 0 && r.socket_read_errors == 0 && r.socket_write_errors == 0,
    {
        IndexerStats {
            ws_connects: 0,
            ws_reconnects: 0,
            frames_total: 0,
            frames_parsed: 0,
            parse_errors: 0,
            snapshots_seen: 0,
            ticks_seen: 0,
            last_trade_seen: 0,
            resolved_seen: 0,
            resolved_tokens_seen: 0,
            subscribe_sent: 0,
            unsubscribe_sent: 0,
            book_updates_applied: 0,
            side_parse_errors: 0,
            value_parse_errors: 0,
            socket_read_errors: 0,
            socket_write_errors: 0,
        }
    }
}

} // verus!

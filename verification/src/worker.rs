//! The book worker's decisions: applying normalised events to the indexed
//! books, tracking each symbol's synchronisation state and sequence number,
//! and choosing the ticks and snapshots to publish.

use vstd::prelude::*;
use vstd::hash_map::StringHashMap;
use crate::levels::{better, keeps_best, BookLevel, BookSide, OrderBookData, Price, Size};
use crate::indexer::{lemma_same_except_remove, level_update, same_except, symbol_key_of, OrderBookIndexer, SymbolId};
use crate::slots::canonical_key;
use crate::decimal::{decimal_unscaled, unscaled, DecimalParts};
use crate::models::{
    BookState, OrderBookCommand, NormalizedBookEvent, RestartSignal, BINANCE_LOCAL_BOOK_DEPTH, BINANCE_PUBLISH_DEPTH,
    DEFAULT_PUBLISH_DEPTH,
};

verus! {

/// `a * b`, saturated to the `i64` range.
pub open spec fn saturating_mul_spec(a: i64, b: i64) -> i64 {
    if a * b > i64::MAX {
        i64::MAX
    } else if a * b < i64::MIN {
        i64::MIN
    } else {
        (a * b) as i64
    }
}

/// `i64::saturating_mul`.
pub fn saturating_mul_i64(a: i64, b: i64) -> (r: i64)
    ensures
        r == saturating_mul_spec(a, b),
{
    match a.checked_mul(b) {
        Some(v) => v,
        None => {
            if (a > 0) == (b > 0) {
                assert(a * b > i64::MAX) by (nonlinear_arith)
                    requires
                        a * b > i64::MAX || a * b < i64::MIN,
                        (a > 0) == (b > 0);
                i64::MAX
            } else {
                assert(a * b < i64::MIN) by (nonlinear_arith)
                    requires
                        a * b > i64::MAX || a * b < i64::MIN,
                        (a > 0) != (b > 0);
                i64::MIN
            }
        },
    }
}

/// The first `depth` levels of a side as (price, size) pairs.
pub open spec fn top_levels_of(book: OrderBookData, depth: usize) -> Seq<BookLevel> {
    let n = if depth < book.prices@.len() { depth as int } else { book.prices@.len() as int };
    let m = if n < book.sizes@.len() { n } else { book.sizes@.len() as int };
    Seq::new(m as nat, |i: int| BookLevel { price: book.prices@[i], size: book.sizes@[i] })
}

/// The first `depth` levels of a side.
pub fn top_levels(book: &OrderBookData, depth: usize) -> (r: Vec<BookLevel>)
    ensures
        r@ == top_levels_of(*book, depth),
{
    let mut r: Vec<BookLevel> = Vec::new();
    let mut i: usize = 0;
    while i < depth && i < book.prices.len() && i < book.sizes.len()
        invariant
            i <= book.prices@.len(),
            i <= book.sizes@.len(),
            i <= depth,
            r@ == Seq::new(i as nat, |j: int| BookLevel { price: book.prices@[j], size: book.sizes@[j] }),
        decreases depth - i,
    {
        r.push(BookLevel { price: book.prices[i], size: book.sizes[i] });
        i = i + 1;
        assert(r@ =~= Seq::new(i as nat, |j: int| BookLevel { price: book.prices@[j], size: book.sizes@[j] }));
    }
    assert(r@ =~= top_levels_of(*book, depth));
    r
}

/// A snapshot's content as plain values.
pub open spec fn snapshot_view(s: SnapshotRecord) -> (Seq<char>, Seq<char>, i64, i64, Seq<BookLevel>, Seq<BookLevel>) {
    (s.exchange@, s.instrument_id@, s.receipt_time, s.timestamp, s.bids@, s.asks@)
}

/// `name` equals "binance" ignoring ASCII case.
pub open spec fn names_binance(name: Seq<char>) -> bool {
    &&& name.len() == 7
    &&& forall|i: int| 0 <= i < 7 ==> (#[trigger] name[i] == seq!['b', 'i', 'n', 'a', 'n', 'c', 'e'][i]
        || name[i] == seq!['B', 'I', 'N', 'A', 'N', 'C', 'E'][i])
}

/// Depth to which the local book of `exchange` is cut after each update.
pub open spec fn local_depth_of(exchange: Seq<char>) -> Option<usize> {
    if names_binance(exchange) {
        Some(BINANCE_LOCAL_BOOK_DEPTH)
    } else {
        None
    }
}

/// Number of levels per side published for `exchange`.
pub open spec fn publish_depth_of(exchange: Seq<char>) -> usize {
    if names_binance(exchange) {
        BINANCE_PUBLISH_DEPTH
    } else {
        DEFAULT_PUBLISH_DEPTH
    }
}

/// The size map after applying `levels` one after the other.
pub open spec fn apply_levels(m: Map<u32, u64>, levels: Seq<BookLevel>) -> Map<u32, u64>
    decreases levels.len(),
{
    if levels.len() == 0 {
        m
    } else {
        level_update(apply_levels(m, levels.drop_last()), levels.last().price.0, levels.last().size.0)
    }
}

/// `post` is the side `pre` after `levels` were applied and the local depth
/// limit of `exchange` (if any) was enforced.
pub open spec fn side_result(pre: Map<u32, u64>, levels: Seq<BookLevel>, post: Map<u32, u64>, side: BookSide, exchange: Seq<char>) -> bool {
    match local_depth_of(exchange) {
        Some(depth) => keeps_best(apply_levels(pre, levels), post, side, depth as nat),
        None => post == apply_levels(pre, levels),
    }
}

/// What the worker remembers about one symbol between events.
#[derive(Debug)]
pub struct SymbolCursor {
    pub symbol_id: SymbolId,
    pub exchange: String,
    pub instrument_id: String,
    pub step_size: u64,
    pub state: BookState,
    pub last_seq_id: i64,
    pub last_ts: i64,
}

impl SymbolCursor {
    /// A field-by-field copy.
    pub fn copy(&self) -> (r: Self)
        ensures
            r == *self,
    {
        SymbolCursor {
            symbol_id: self.symbol_id,
            exchange: self.exchange.clone(),
            instrument_id: self.instrument_id.clone(),
            step_size: self.step_size,
            state: self.state,
            last_seq_id: self.last_seq_id,
            last_ts: self.last_ts,
        }
    }
}

/// A tick to publish: one level of an applied update, with its scales.
#[derive(Debug)]
pub struct TickRecord {
    pub exchange: String,
    pub instrument_id: String,
    pub receipt_time: i64,
    pub timestamp: i64,
    pub side: BookSide,
    pub price: Price,
    pub price_scale: u32,
    pub size: Size,
    pub size_scale: u64,
}

/// A snapshot to publish: the top levels of both sides of one book.
#[derive(Debug)]
pub struct SnapshotRecord {
    pub exchange: String,
    pub instrument_id: String,
    pub receipt_time: i64,
    pub timestamp: i64,
    pub bids: Vec<BookLevel>,
    pub asks: Vec<BookLevel>,
}

/// What handling one event asks the caller to do: publish `ticks`, and on a
/// sequence gap raise an audit event and send `gap` as a restart signal.
#[derive(Debug)]
pub struct EventOutcome {
    pub ticks: Vec<TickRecord>,
    pub gap: Option<RestartSignal>,
}

/// What one command asks the caller to publish.
#[derive(Debug)]
pub struct CommandOutcome {
    pub ticks: Vec<TickRecord>,
    pub gap: Option<RestartSignal>,
    pub snapshots: Vec<SnapshotRecord>,
}

/// Topic of the audit event raised on a sequence gap.
pub fn sequence_gap_topic() -> (r: &'static str)
    ensures
        r@ == "SequenceIdGap"@,
{
    "SequenceIdGap"
}

/// Message of the audit event raised on a sequence gap of `exchange:symbol`.
pub fn sequence_gap_message(exchange: &str, symbol: &str) -> (r: String)
    ensures
        r@ == "Detected sequence gap for "@ + exchange@ + seq![':'] + symbol@,
{
    let mut m = "Detected sequence gap for ".to_owned();
    proof { reveal_strlit(":"); }
    m.append(exchange);
    m.append(":");
    m.append(symbol);
    m
}

/// How an event is handled given the symbol's cursor.
pub enum EventCase {
    Snapshot,
    Ignored,
    Gap,
    Applied,
}

pub open spec fn event_case(cur: SymbolCursor, event: NormalizedBookEvent) -> EventCase {
    if event.is_snapshot {
        EventCase::Snapshot
    } else if cur.state != BookState::Synced {
        EventCase::Ignored
    } else if event.prev_seq_id != 0 && event.prev_seq_id != cur.last_seq_id {
        EventCase::Gap
    } else {
        EventCase::Applied
    }
}

/// The cursor created for a symbol seen for the first time.
pub open spec fn fresh_cursor(event: NormalizedBookEvent, id: SymbolId) -> SymbolCursor {
    SymbolCursor {
        symbol_id: id,
        exchange: event.exchange,
        instrument_id: event.symbol,
        step_size: event.size_scale,
        state: BookState::AwaitingSnapshot,
        last_seq_id: 0,
        last_ts: 0,
    }
}

/// The cursor after an event that synchronised the book.
pub open spec fn synced_cursor(cur: SymbolCursor, event: NormalizedBookEvent) -> SymbolCursor {
    SymbolCursor {
        state: BookState::Synced,
        last_seq_id: event.seq_id,
        last_ts: event.timestamp,
        step_size: event.size_scale,
        ..cur
    }
}

/// The cursor after `event`.
pub open spec fn next_cursor(cur: SymbolCursor, event: NormalizedBookEvent) -> SymbolCursor {
    match event_case(cur, event) {
        EventCase::Snapshot => synced_cursor(cur, event),
        EventCase::Applied => synced_cursor(cur, event),
        EventCase::Ignored => cur,
        EventCase::Gap => SymbolCursor { state: BookState::AwaitingSnapshot, ..cur },
    }
}

/// The levels of `levels` whose price is in `allowed` (all of them when
/// there is no filter), in order.
pub open spec fn kept_levels(levels: Seq<BookLevel>, allowed: Option<Seq<Price>>) -> Seq<BookLevel>
    decreases levels.len(),
{
    if levels.len() == 0 {
        Seq::empty()
    } else {
        let rest = kept_levels(levels.drop_last(), allowed);
        if allowed is None || allowed->0.contains(levels.last().price) {
            rest.push(levels.last())
        } else {
            rest
        }
    }
}

/// The first `depth` prices of a side (all of them when it is shorter).
pub open spec fn top_prices_of(book: OrderBookData, depth: usize) -> Seq<Price> {
    if depth < book.prices@.len() {
        book.prices@.take(depth as int)
    } else {
        book.prices@
    }
}

/// The tick published for `level`.
pub open spec fn tick_of(cur: SymbolCursor, event: NormalizedBookEvent, receipt_time: i64, side: BookSide, level: BookLevel) -> TickRecord {
    TickRecord {
        exchange: cur.exchange,
        instrument_id: cur.instrument_id,
        receipt_time,
        timestamp: event.timestamp.wrapping_mul(1_000_000),
        side,
        price: level.price,
        price_scale: event.price_scale,
        size: level.size,
        size_scale: event.size_scale,
    }
}

/// The ticks published for an applied update: the bid levels then the ask
/// levels of the event; for Binance only those whose price is among the
/// published depth of the updated book.
pub open spec fn ticks_of(
    cur: SymbolCursor,
    event: NormalizedBookEvent,
    receipt_time: i64,
    bids_after: OrderBookData,
    asks_after: OrderBookData,
) -> Seq<TickRecord> {
    let filter = names_binance(event.exchange@);
    let depth = publish_depth_of(event.exchange@);
    let bid_allowed = if filter { Some(top_prices_of(bids_after, depth)) } else { None };
    let ask_allowed = if filter { Some(top_prices_of(asks_after, depth)) } else { None };
    kept_levels(event.bids@, bid_allowed).map_values(|l: BookLevel| tick_of(cur, event, receipt_time, BookSide::Bid, l))
        + kept_levels(event.asks@, ask_allowed).map_values(|l: BookLevel| tick_of(cur, event, receipt_time, BookSide::Ask, l))
}

/// The first `depth` prices of a side.
pub fn top_prices(book: &OrderBookData, depth: usize) -> (r: Vec<Price>)
    ensures
        r@ == top_prices_of(*book, depth),
{
    let n = if depth < book.prices.len() { depth } else { book.prices.len() };
    let mut r: Vec<Price> = Vec::new();
    let mut i: usize = 0;
    while i < n
        invariant
            n <= book.prices@.len(),
            n == (if depth < book.prices@.len() { depth as int } else { book.prices@.len() as int }),
            i <= n,
            r@ == book.prices@.take(i as int),
        decreases n - i,
    {
        r.push(book.prices[i]);
        i = i + 1;
        assert(r@ =~= book.prices@.take(i as int));
    }
    assert(book.prices@.take(n as int) =~= top_prices_of(*book, depth));
    r
}

/// `price` occurs in `prices`.
pub fn contains_price(prices: &Vec<Price>, price: Price) -> (r: bool)
    ensures
        r == prices@.contains(price),
{
    let mut i: usize = 0;
    while i < prices.len()
        invariant
            i <= prices@.len(),
            forall|j: int| 0 <= j < i ==> prices@[j] != price,
        decreases prices.len() - i,
    {
        if prices[i] == price {
            return true;
        }
        i = i + 1;
    }
    false
}

/// Ticks for the `levels` of one side that pass `allowed`.
fn push_ticks(
    out: &mut Vec<TickRecord>,
    cur: &SymbolCursor,
    event: &NormalizedBookEvent,
    receipt_time: i64,
    side: BookSide,
    levels: &Vec<BookLevel>,
    allowed: &Option<Vec<Price>>,
)
    ensures
        final(out)@ == old(out)@ + kept_levels(levels@, match allowed { Some(v) => Some(v@), None => None })
            .map_values(|l: BookLevel| tick_of(*cur, *event, receipt_time, side, l)),
{
    let ghost al = match allowed { Some(v) => Some(v@), None => None::<Seq<Price>> };
    let ghost start = out@;
    let exchange_ts = event.timestamp.wrapping_mul(1_000_000);
    let mut i: usize = 0;
    while i < levels.len()
        invariant
            i <= levels@.len(),
            al == (match allowed { Some(v) => Some(v@), None => None::<Seq<Price>> }),
            exchange_ts == event.timestamp.wrapping_mul(1_000_000),
            out@ == start + kept_levels(levels@.take(i as int), al)
                .map_values(|l: BookLevel| tick_of(*cur, *event, receipt_time, side, l)),
        decreases levels.len() - i,
    {
        let level = levels[i];
        assert(levels@.take(i + 1).drop_last() =~= levels@.take(i as int));
        assert(levels@.take(i + 1).last() == level);
        let keep = match allowed {
            None => true,
            Some(v) => contains_price(v, level.price),
        };
        if keep {
            out.push(TickRecord {
                exchange: cur.exchange.clone(),
                instrument_id: cur.instrument_id.clone(),
                receipt_time,
                timestamp: exchange_ts,
                side,
                price: level.price,
                price_scale: event.price_scale,
                size: level.size,
                size_scale: event.size_scale,
            });
        }
        i = i + 1;
        assert(out@ =~= start + kept_levels(levels@.take(i as int), al)
            .map_values(|l: BookLevel| tick_of(*cur, *event, receipt_time, side, l)));
    }
    assert(levels@.take(levels@.len() as int) =~= levels@);
}

/// ASCII case-insensitive test for "binance".
pub fn is_binance(exchange: &str) -> (r: bool)
    ensures
        r == names_binance(exchange@),
{
    let n = exchange.unicode_len();
    if n != 7 {
        return false;
    }
    let lower: [char; 7] = ['b', 'i', 'n', 'a', 'n', 'c', 'e'];
    let upper: [char; 7] = ['B', 'I', 'N', 'A', 'N', 'C', 'E'];
    assert(lower@ == seq!['b', 'i', 'n', 'a', 'n', 'c', 'e']);
    assert(upper@ == seq!['B', 'I', 'N', 'A', 'N', 'C', 'E']);
    let mut i: usize = 0;
    while i < 7
        invariant
            i <= 7,
            exchange@.len() == 7,
            lower@ == seq!['b', 'i', 'n', 'a', 'n', 'c', 'e'],
            upper@ == seq!['B', 'I', 'N', 'A', 'N', 'C', 'E'],
            forall|j: int| 0 <= j < i ==> (#[trigger] exchange@[j] == lower@[j] || exchange@[j] == upper@[j]),
        decreases 7 - i,
    {
        let c = exchange.get_char(i);
        if c != lower[i] && c != upper[i] {
            return false;
        }
        i = i + 1;
    }
    true
}

/// `Some(BINANCE_LOCAL_BOOK_DEPTH)` for Binance, `None` otherwise.
pub fn local_depth_for_exchange(exchange: &str) -> (r: Option<usize>)
    ensures
        r == local_depth_of(exchange@),
{
    if is_binance(exchange) {
        return Some(BINANCE_LOCAL_BOOK_DEPTH);
    }
    None
}

/// `BINANCE_PUBLISH_DEPTH` for Binance, `DEFAULT_PUBLISH_DEPTH` otherwise.
pub fn publish_depth_for_exchange(exchange: &str) -> (r: usize)
    ensures
        r == publish_depth_of(exchange@),
{
    if is_binance(exchange) {
        return BINANCE_PUBLISH_DEPTH;
    }
    DEFAULT_PUBLISH_DEPTH
}

/// Applies `levels` in order to one side of the book `symbol_id`.
pub fn apply_side_updates(indexer: &mut OrderBookIndexer, symbol_id: SymbolId, levels: &Vec<BookLevel>, side: BookSide)
    requires
        old(indexer).wf(),
    ensures
        final(indexer).wf(),
        final(indexer).id_resolver@ == old(indexer).id_resolver@,
        final(indexer).symbol_map() == old(indexer).symbol_map(),
        side == BookSide::Bid ==> {
            &&& final(indexer).bid_map().remove(canonical_key(symbol_id.0)) == old(indexer).bid_map().remove(canonical_key(symbol_id.0))
            &&& final(indexer).ask_map() == old(indexer).ask_map()
            &&& old(indexer).bid_map().contains_key(canonical_key(symbol_id.0))
                ==> final(indexer).bid_map()[canonical_key(symbol_id.0)].as_map()
                    == apply_levels(old(indexer).bid_map()[canonical_key(symbol_id.0)].as_map(), levels@)
        },
        side == BookSide::Ask ==> {
            &&& final(indexer).ask_map().remove(canonical_key(symbol_id.0)) == old(indexer).ask_map().remove(canonical_key(symbol_id.0))
            &&& final(indexer).bid_map() == old(indexer).bid_map()
            &&& old(indexer).ask_map().contains_key(canonical_key(symbol_id.0))
                ==> final(indexer).ask_map()[canonical_key(symbol_id.0)].as_map()
                    == apply_levels(old(indexer).ask_map()[canonical_key(symbol_id.0)].as_map(), levels@)
        },
{
    let ghost c = canonical_key(symbol_id.0);
    let n = levels.len();
    let mut i: usize = 0;
    while i < n
        invariant
            n == levels@.len(),
            c == canonical_key(symbol_id.0),
            i <= n,
            indexer.wf(),
            indexer.id_resolver@ == old(indexer).id_resolver@,
            indexer.symbol_map() == old(indexer).symbol_map(),
            side == BookSide::Bid ==> {
                &&& indexer.bid_map().remove(c) == old(indexer).bid_map().remove(c)
                &&& indexer.bid_map().dom() == old(indexer).bid_map().dom()
                &&& indexer.ask_map() == old(indexer).ask_map()
                &&& old(indexer).bid_map().contains_key(c)
                    ==> indexer.bid_map()[c].as_map() == apply_levels(old(indexer).bid_map()[c].as_map(), levels@.take(i as int))
            },
            side == BookSide::Ask ==> {
                &&& indexer.ask_map().remove(c) == old(indexer).ask_map().remove(c)
                &&& indexer.ask_map().dom() == old(indexer).ask_map().dom()
                &&& indexer.bid_map() == old(indexer).bid_map()
                &&& old(indexer).ask_map().contains_key(c)
                    ==> indexer.ask_map()[c].as_map() == apply_levels(old(indexer).ask_map()[c].as_map(), levels@.take(i as int))
            },
        decreases n - i,
    {
        let level = levels[i];
        let ghost pre = *indexer;
        indexer.apply_book_update(symbol_id, level.price, level.size, side);
        proof {
            assert(levels@.take(i + 1).drop_last() =~= levels@.take(i as int));
            assert(levels@.take(i + 1).last() == level);
            if side == BookSide::Bid {
                lemma_same_except_remove(pre.bid_map(), indexer.bid_map(), c);
            } else {
                lemma_same_except_remove(pre.ask_map(), indexer.ask_map(), c);
            }
        }
        i = i + 1;
    }
    assert(levels@.take(n as int) =~= levels@);
}

} // verus!

verus! {

/// The book worker's state: the indexed books and one cursor per symbol key,
/// with the keys also kept in the order they were first seen.
pub struct OrderBooksIndexerWorker {
    pub book_indexer: OrderBookIndexer,
    pub symbol_cursors: StringHashMap<SymbolCursor>,
    pub cursor_order: Vec<String>,
}

/// The side map a book had before an event (empty for a new book).
pub open spec fn side_before(m: Map<u64, OrderBookData>, c: u64) -> Map<u32, u64> {
    if m.contains_key(c) {
        m[c].as_map()
    } else {
        Map::empty()
    }
}

impl OrderBooksIndexerWorker {
    /// The cursor keys in first-seen order.
    pub open spec fn cursor_keys(&self) -> Seq<Seq<char>> {
        self.cursor_order@.map_values(|k: String| k@)
    }

    /// The books are well formed, every cursor belongs to the symbol its key
    /// resolves to, and the key order lists each cursor key exactly once.
    pub open spec fn wf(&self) -> bool {
        &&& self.book_indexer.wf()
        &&& forall|k: Seq<char>| #[trigger] self.symbol_cursors@.contains_key(k) ==> {
            &&& self.book_indexer.id_resolver@.contains_key(k)
            &&& self.symbol_cursors@[k].symbol_id == self.book_indexer.id_resolver@[k]
        }
        &&& self.cursor_keys().no_duplicates()
        &&& forall|k: Seq<char>| #[trigger] self.symbol_cursors@.contains_key(k) <==> self.cursor_keys().contains(k)
    }

    /// The id the event's symbol key resolves to after the event.
    pub open spec fn id_after(post: Self, event: NormalizedBookEvent) -> SymbolId {
        post.book_indexer.id_resolver@[symbol_key_of(event.exchange@, event.symbol@)]
    }

    /// The cursor the event is judged against: the stored one, or a fresh one.
    pub open spec fn prior_cursor(pre: Self, post: Self, event: NormalizedBookEvent) -> SymbolCursor {
        let key = symbol_key_of(event.exchange@, event.symbol@);
        if pre.symbol_cursors@.contains_key(key) {
            pre.symbol_cursors@[key]
        } else {
            fresh_cursor(event, Self::id_after(post, event))
        }
    }

    /// The books of the event's symbol after the event, side by side, as
    /// decided by the event's case.
    pub open spec fn books_after(pre: Self, post: Self, event: NormalizedBookEvent) -> bool {
        let c = Self::id_after(post, event).0;
        let pb = side_before(pre.book_indexer.bid_map(), c);
        let pa = side_before(pre.book_indexer.ask_map(), c);
        let fb = post.book_indexer.bid_map()[c].as_map();
        let fa = post.book_indexer.ask_map()[c].as_map();
        &&& post.book_indexer.bid_map().contains_key(c)
        &&& post.book_indexer.ask_map().contains_key(c)
        &&& match event_case(Self::prior_cursor(pre, post, event), event) {
            EventCase::Snapshot => {
                &&& side_result(Map::empty(), event.bids@, fb, BookSide::Bid, event.exchange@)
                &&& side_result(Map::empty(), event.asks@, fa, BookSide::Ask, event.exchange@)
            },
            EventCase::Applied => {
                &&& side_result(pb, event.bids@, fb, BookSide::Bid, event.exchange@)
                &&& side_result(pa, event.asks@, fa, BookSide::Ask, event.exchange@)
            },
            _ => fb == pb && fa == pa,
        }
    }

    /// Everything `handle_event` does, over the states before and after and
    /// the ticks and gap signal it returns.
    pub open spec fn event_handled(
        pre: Self,
        post: Self,
        event: NormalizedBookEvent,
        receipt_time: Option<i64>,
        ticks: Seq<TickRecord>,
        gap: Option<RestartSignal>,
    ) -> bool {
        &&& pre.book_indexer.id_resolver@.contains_key(symbol_key_of(event.exchange@, event.symbol@))
            ==> post.book_indexer.id_resolver@ == pre.book_indexer.id_resolver@
        &&& !pre.book_indexer.id_resolver@.contains_key(symbol_key_of(event.exchange@, event.symbol@)) ==> {
            &&& post.book_indexer.id_resolver@ == pre.book_indexer.id_resolver@.insert(
                symbol_key_of(event.exchange@, event.symbol@),
                Self::id_after(post, event),
            )
            &&& !pre.book_indexer.symbol_map().contains_key(Self::id_after(post, event).0)
            }
        &&& post.symbol_cursors@ == pre.symbol_cursors@.insert(
            symbol_key_of(event.exchange@, event.symbol@),
            next_cursor(Self::prior_cursor(pre, post, event), event),
            )
        &&& post.book_indexer.bid_map().remove(Self::id_after(post, event).0)
            == pre.book_indexer.bid_map().remove(Self::id_after(post, event).0)
        &&& post.book_indexer.ask_map().remove(Self::id_after(post, event).0)
            == pre.book_indexer.ask_map().remove(Self::id_after(post, event).0)
        &&& Self::books_after(pre, post, event)
        &&& gap == (match event_case(Self::prior_cursor(pre, post, event), event) {
            EventCase::Gap => Some(RestartSignal { exchange: event.exchange, instrument_id: event.symbol }),
            _ => None,
            })
        &&& ticks == (match (event_case(Self::prior_cursor(pre, post, event), event), receipt_time) {
            (EventCase::Applied, Some(t)) => ticks_of(
                Self::prior_cursor(pre, post, event),
                event,
                t,
                post.book_indexer.bid_map()[Self::id_after(post, event).0],
                post.book_indexer.ask_map()[Self::id_after(post, event).0],
            ),
            _ => Seq::empty(),
            })
    }

    /// A worker with no symbols.
    pub fn new() -> (r: Self)
        ensures
            r.wf(),
            r.symbol_cursors@ == Map::<Seq<char>, SymbolCursor>::empty(),
            r.book_indexer.symbol_map() == Map::<u64, crate::slots::OrderBookMeta>::empty(),
    {
        let r = OrderBooksIndexerWorker {
            book_indexer: OrderBookIndexer::new(),
            symbol_cursors: StringHashMap::new(),
            cursor_order: Vec::new(),
        };
        assert(r.cursor_keys() =~= Seq::<Seq<char>>::empty());
        r
    }

    /// Whether one more symbol fits in the slot map.
    pub fn has_room(&self) -> (r: bool)
        requires
            self.wf(),
        ensures
            r == (self.book_indexer.symbol_map().len() < 0xFFFF_FFFE),
    {
        self.book_indexer.symbol_count() < 0xFFFF_FFFE
    }

    /// Applies one normalised event (`handle_event`). A snapshot replaces the
    /// symbol's book and marks it synced; an update is ignored until then; an
    /// update whose previous sequence id is set and differs from the last one
    /// seen reports a gap and waits for a new snapshot; any other update is
    /// applied and published as ticks (when a receipt time is known). Binance
    /// books are cut to their local depth after each change.
    pub fn handle_event(&mut self, event: NormalizedBookEvent, receipt_time: Option<i64>) -> (out: EventOutcome)
        requires
            old(self).wf(),
            old(self).book_indexer.symbol_map().len() < 0xFFFF_FFFE,
        ensures
            final(self).wf(),
            Self::event_handled(*old(self), *final(self), event, receipt_time, out.ticks@, out.gap),
    {
        let ghost pre = *self;
        let ghost key_v = symbol_key_of(event.exchange@, event.symbol@);
        let key = OrderBookIndexer::symbol_key(event.exchange.as_str(), event.symbol.as_str());
        let symbol_id = match self.book_indexer.id_resolver.get(key.as_str()) {
            Some(existing_id) => *existing_id,
            None => self.book_indexer.new_book(event.exchange.clone(), event.symbol.clone()),
        };
        let ghost c = symbol_id.0;
        let ghost mid = *self;
        assert(self.book_indexer.id_resolver@[key_v] == symbol_id);
        assert(self.book_indexer.symbol_map().contains_key(c));
        assert(canonical_key(c) == c);
        let cursor = match self.symbol_cursors.get(key.as_str()) {
            Some(existing) => existing.copy(),
            None => {
                let fresh = SymbolCursor {
                    symbol_id,
                    exchange: event.exchange.clone(),
                    instrument_id: event.symbol.clone(),
                    step_size: event.size_scale,
                    state: BookState::AwaitingSnapshot,
                    last_seq_id: 0,
                    last_ts: 0,
                };
                self.symbol_cursors.insert(key.clone(), fresh.copy());
                self.cursor_order.push(key.clone());
                fresh
            },
        };
        assert(cursor == Self::prior_cursor(pre, *self, event));
        let ghost mid_keys = self.cursor_keys();
        proof {
            assert(self.cursor_keys() =~= (if pre.symbol_cursors@.contains_key(key_v) {
                pre.cursor_keys()
            } else {
                pre.cursor_keys().push(key_v)
            }));
            if !pre.symbol_cursors@.contains_key(key_v) {
                assert(!pre.cursor_keys().contains(key_v));
                assert forall|i: int, j: int| 0 <= i < j < self.cursor_keys().len()
                    implies self.cursor_keys()[i] != self.cursor_keys()[j] by {
                    if j == self.cursor_keys().len() - 1 {
                        assert(pre.cursor_keys()[i] == self.cursor_keys()[i]);
                    }
                }
                assert forall|k: Seq<char>| #[trigger] self.symbol_cursors@.contains_key(k)
                    <==> self.cursor_keys().contains(k) by {
                    if k != key_v && self.cursor_keys().contains(k) {
                        let i = choose|i: int| 0 <= i < self.cursor_keys().len() && self.cursor_keys()[i] == k;
                        assert(pre.cursor_keys()[i] == k);
                    }
                    if k != key_v && pre.cursor_keys().contains(k) {
                        let i = choose|i: int| 0 <= i < pre.cursor_keys().len() && pre.cursor_keys()[i] == k;
                        assert(self.cursor_keys()[i] == k);
                    }
                    if k == key_v {
                        assert(self.cursor_keys()[self.cursor_keys().len() - 1] == k);
                    }
                }
            }
            assert forall|k: Seq<char>| #[trigger] self.symbol_cursors@.contains_key(k) implies {
                &&& self.book_indexer.id_resolver@.contains_key(k)
                &&& self.symbol_cursors@[k].symbol_id == self.book_indexer.id_resolver@[k]
            } by {
                if k != key_v {
                    assert(pre.symbol_cursors@.contains_key(k));
                }
            }
            assert(self.wf());
        }
        let ghost cur = cursor;
        let ghost pb = side_before(pre.book_indexer.bid_map(), c);
        let ghost pa = side_before(pre.book_indexer.ask_map(), c);
        proof {
            assert(pb == mid.book_indexer.bid_map()[c].as_map()) by {
                if !pre.book_indexer.bid_map().contains_key(c) {
                    assert(mid.book_indexer.bid_map()[c].wf(BookSide::Bid));
                    mid.book_indexer.bid_map()[c].lemma_dom_len(BookSide::Bid);
                    assert(mid.book_indexer.bid_map()[c].as_map() =~= Map::<u32, u64>::empty());
                }
            }
            assert(pa == mid.book_indexer.ask_map()[c].as_map()) by {
                if !pre.book_indexer.ask_map().contains_key(c) {
                    assert(mid.book_indexer.ask_map()[c].wf(BookSide::Ask));
                    mid.book_indexer.ask_map()[c].lemma_dom_len(BookSide::Ask);
                    assert(mid.book_indexer.ask_map()[c].as_map() =~= Map::<u32, u64>::empty());
                }
            }
            assert(mid.book_indexer.bid_map().remove(c) =~= pre.book_indexer.bid_map().remove(c));
            assert(mid.book_indexer.ask_map().remove(c) =~= pre.book_indexer.ask_map().remove(c));
        }

        if event.is_snapshot {
            self.book_indexer.clear_book(symbol_id);
            proof {
                lemma_same_except_remove(mid.book_indexer.bid_map(), self.book_indexer.bid_map(), c);
                lemma_same_except_remove(mid.book_indexer.ask_map(), self.book_indexer.ask_map(), c);
            }
            apply_side_updates(&mut self.book_indexer, symbol_id, &event.bids, BookSide::Bid);
            apply_side_updates(&mut self.book_indexer, symbol_id, &event.asks, BookSide::Ask);
            let ghost applied = *self;
            if let Some(local_depth) = local_depth_for_exchange(event.exchange.as_str()) {
                self.book_indexer.truncate_book_depth(symbol_id, local_depth);
                proof {
                    lemma_same_except_remove(applied.book_indexer.bid_map(), self.book_indexer.bid_map(), c);
                    lemma_same_except_remove(applied.book_indexer.ask_map(), self.book_indexer.ask_map(), c);
                }
            }
            self.symbol_cursors.insert(key, SymbolCursor {
                symbol_id: cursor.symbol_id,
                exchange: cursor.exchange,
                instrument_id: cursor.instrument_id,
                step_size: event.size_scale,
                state: BookState::Synced,
                last_seq_id: event.seq_id,
                last_ts: event.timestamp,
            });
            proof {
                assert(self.symbol_cursors@ =~= pre.symbol_cursors@.insert(key_v, next_cursor(cur, event)));
                assert(self.cursor_keys() == mid_keys);
            }
            return EventOutcome { ticks: Vec::new(), gap: None };
        }
        if cursor.state != BookState::Synced {
            proof {
                assert(self.symbol_cursors@ =~= pre.symbol_cursors@.insert(key_v, next_cursor(cur, event)));
            }
            return EventOutcome { ticks: Vec::new(), gap: None };
        }

        if event.prev_seq_id != 0 && event.prev_seq_id != cursor.last_seq_id {
            let signal = RestartSignal { exchange: event.exchange.clone(), instrument_id: event.symbol.clone() };
            self.symbol_cursors.insert(key, SymbolCursor {
                symbol_id: cursor.symbol_id,
                exchange: cursor.exchange,
                instrument_id: cursor.instrument_id,
                step_size: cursor.step_size,
                state: BookState::AwaitingSnapshot,
                last_seq_id: cursor.last_seq_id,
                last_ts: cursor.last_ts,
            });
            proof {
                assert(self.symbol_cursors@ =~= pre.symbol_cursors@.insert(key_v, next_cursor(cur, event)));
                assert(self.cursor_keys() == mid_keys);
            }
            return EventOutcome { ticks: Vec::new(), gap: Some(signal) };
        }

        apply_side_updates(&mut self.book_indexer, symbol_id, &event.bids, BookSide::Bid);
        apply_side_updates(&mut self.book_indexer, symbol_id, &event.asks, BookSide::Ask);
        let ghost applied = *self;
        if let Some(local_depth) = local_depth_for_exchange(event.exchange.as_str()) {
            self.book_indexer.truncate_book_depth(symbol_id, local_depth);
            proof {
                lemma_same_except_remove(applied.book_indexer.bid_map(), self.book_indexer.bid_map(), c);
                lemma_same_except_remove(applied.book_indexer.ask_map(), self.book_indexer.ask_map(), c);
            }
        }
        let ticks = match receipt_time {
            Some(t) => self.emit_ticks(&cursor, &event, t),
            None => Vec::new(),
        };
        self.symbol_cursors.insert(key, SymbolCursor {
            symbol_id: cursor.symbol_id,
            exchange: cursor.exchange,
            instrument_id: cursor.instrument_id,
            step_size: event.size_scale,
            state: BookState::Synced,
            last_seq_id: event.seq_id,
            last_ts: event.timestamp,
        });
        proof {
            assert(self.symbol_cursors@ =~= pre.symbol_cursors@.insert(key_v, next_cursor(cur, event)));
            assert(self.cursor_keys() == mid_keys);
        }
        EventOutcome { ticks, gap: None }
    }

    /// A cursor's book is published in snapshots once it is synced, has seen
    /// a timestamp, and its symbol has both sides.
    pub open spec fn snapshot_ready(&self, cur: SymbolCursor) -> bool {
        &&& cur.state == BookState::Synced
        &&& cur.last_ts != 0
        &&& self.book_indexer.symbol_map().contains_key(canonical_key(cur.symbol_id.0))
        &&& self.book_indexer.bid_map().contains_key(canonical_key(cur.symbol_id.0))
        &&& self.book_indexer.ask_map().contains_key(canonical_key(cur.symbol_id.0))
    }

    /// The snapshot published for a ready cursor.
    pub open spec fn snapshot_of(&self, cur: SymbolCursor, receipt_time: i64) -> (Seq<char>, Seq<char>, i64, i64, Seq<BookLevel>, Seq<BookLevel>) {
        let depth = publish_depth_of(cur.exchange@);
        (
            cur.exchange@,
            cur.instrument_id@,
            receipt_time,
            saturating_mul_spec(cur.last_ts, 1_000_000),
            top_levels_of(self.book_indexer.bid_map()[canonical_key(cur.symbol_id.0)], depth),
            top_levels_of(self.book_indexer.ask_map()[canonical_key(cur.symbol_id.0)], depth),
        )
    }

    /// The snapshots published for the cursors of `keys`, in order.
    pub open spec fn snapshots_for(&self, keys: Seq<Seq<char>>, receipt_time: i64) -> Seq<(Seq<char>, Seq<char>, i64, i64, Seq<BookLevel>, Seq<BookLevel>)>
        decreases keys.len(),
    {
        if keys.len() == 0 {
            Seq::empty()
        } else {
            let rest = self.snapshots_for(keys.drop_last(), receipt_time);
            let key = keys.last();
            if self.symbol_cursors@.contains_key(key) && self.snapshot_ready(self.symbol_cursors@[key]) {
                rest.push(self.snapshot_of(self.symbol_cursors@[key], receipt_time))
            } else {
                rest
            }
        }
    }

    /// Snapshots of every ready book, in the order the symbols were first
    /// seen (`emit_snapshots`).
    pub fn emit_snapshots(&self, receipt_time: i64) -> (r: Vec<SnapshotRecord>)
        requires
            self.wf(),
        ensures
            r@.map_values(|s: SnapshotRecord| snapshot_view(s)) == self.snapshots_for(self.cursor_keys(), receipt_time),
    {
        let mut out: Vec<SnapshotRecord> = Vec::new();
        let n = self.cursor_order.len();
        let mut i: usize = 0;
        while i < n
            invariant
                n == self.cursor_order@.len(),
                i <= n,
                self.wf(),
                out@.map_values(|s: SnapshotRecord| snapshot_view(s))
                    == self.snapshots_for(self.cursor_keys().take(i as int), receipt_time),
            decreases n - i,
        {
            let ghost keys_i = self.cursor_keys().take(i as int);
            assert(self.cursor_keys().take(i + 1).drop_last() =~= keys_i);
            assert(self.cursor_keys().take(i + 1).last() == self.cursor_order@[i as int]@);
            let key = &self.cursor_order[i];
            i = i + 1;
            let cursor = match self.symbol_cursors.get(key.as_str()) {
                Some(c) => c,
                None => {
                    continue;
                },
            };
            let depth = publish_depth_for_exchange(cursor.exchange.as_str());
            if cursor.state != BookState::Synced || cursor.last_ts == 0 {
                continue;
            }
            match crate::slots::symbols_get(&self.book_indexer.symbols, cursor.symbol_id.0) {
                Some(_meta) => {},
                None => {
                    continue;
                },
            }
            let bids = match crate::slots::side_get(&self.book_indexer.bids, cursor.symbol_id.0) {
                Some(b) => b,
                None => {
                    continue;
                },
            };
            let asks = match crate::slots::side_get(&self.book_indexer.asks, cursor.symbol_id.0) {
                Some(a) => a,
                None => {
                    continue;
                },
            };
            let snapshot = SnapshotRecord {
                exchange: cursor.exchange.clone(),
                instrument_id: cursor.instrument_id.clone(),
                receipt_time,
                timestamp: saturating_mul_i64(cursor.last_ts, 1_000_000),
                bids: top_levels(bids, depth),
                asks: top_levels(asks, depth),
            };
            out.push(snapshot);
            assert(out@.map_values(|s: SnapshotRecord| snapshot_view(s))
                =~= self.snapshots_for(self.cursor_keys().take(i as int), receipt_time));
        }
        assert(self.cursor_keys().take(n as int) =~= self.cursor_keys());
        out
    }

    /// Runs one command (`process`): an update is handled as by
    /// `handle_event`; a snapshot request publishes the ready books when a
    /// receipt time is known and changes nothing.
    pub fn process(&mut self, command: OrderBookCommand, receipt_time: Option<i64>) -> (out: CommandOutcome)
        requires
            old(self).wf(),
            old(self).book_indexer.symbol_map().len() < 0xFFFF_FFFE,
        ensures
            final(self).wf(),
            match command {
                OrderBookCommand::Update(event) => {
                    &&& Self::event_handled(*old(self), *final(self), event, receipt_time, out.ticks@, out.gap)
                    &&& out.snapshots@.len() == 0
                },
                OrderBookCommand::TakeSnapShot => {
                    &&& *final(self) == *old(self)
                    &&& out.ticks@.len() == 0
                    &&& out.gap is None
                    &&& match receipt_time {
                        Some(t) => out.snapshots@.map_values(|s: SnapshotRecord| snapshot_view(s))
                            == old(self).snapshots_for(old(self).cursor_keys(), t),
                        None => out.snapshots@.len() == 0,
                    }
                },
            },
    {
        match command {
            OrderBookCommand::Update(event) => {
                let r = self.handle_event(event, receipt_time);
                CommandOutcome { ticks: r.ticks, gap: r.gap, snapshots: Vec::new() }
            },
            OrderBookCommand::TakeSnapShot => {
                let snapshots = match receipt_time {
                    Some(t) => self.emit_snapshots(t),
                    None => Vec::new(),
                };
                CommandOutcome { ticks: Vec::new(), gap: None, snapshots }
            },
        }
    }

    /// A price in ticks as a decimal price (`decimal_from_price`): the
    /// ticks divided by the scale, zero for a zero scale; `None` where the
    /// division would panic.
    pub fn decimal_from_price(price: Price, scale: u32) -> (r: Option<DecimalParts>)
        ensures
            r == unscaled(price.0 as nat, scale as nat),
    {
        decimal_unscaled(price.0 as u64, scale as u64)
    }

    /// A size in units as a decimal quantity (`decimal_from_size`).
    pub fn decimal_from_size(size: Size, scale: u64) -> (r: Option<DecimalParts>)
        ensures
            r == unscaled(size.0 as nat, scale as nat),
    {
        decimal_unscaled(size.0, scale)
    }

    /// Ticks for an applied update (`emit_ticks`).
    fn emit_ticks(&self, cursor: &SymbolCursor, event: &NormalizedBookEvent, receipt_time: i64) -> (r: Vec<TickRecord>)
        requires
            self.book_indexer.wf(),
            self.book_indexer.bid_map().contains_key(canonical_key(cursor.symbol_id.0)),
            self.book_indexer.ask_map().contains_key(canonical_key(cursor.symbol_id.0)),
        ensures
            r@ == ticks_of(
                *cursor,
                *event,
                receipt_time,
                self.book_indexer.bid_map()[canonical_key(cursor.symbol_id.0)],
                self.book_indexer.ask_map()[canonical_key(cursor.symbol_id.0)],
            ),
    {
        let should_filter = is_binance(event.exchange.as_str());
        let publish_depth = publish_depth_for_exchange(event.exchange.as_str());
        let bid_filter: Option<Vec<Price>> = if should_filter {
            match crate::slots::side_get(&self.book_indexer.bids, cursor.symbol_id.0) {
                Some(book) => Some(top_prices(book, publish_depth)),
                None => Some(Vec::new()),
            }
        } else {
            None
        };
        let ask_filter: Option<Vec<Price>> = if should_filter {
            match crate::slots::side_get(&self.book_indexer.asks, cursor.symbol_id.0) {
                Some(book) => Some(top_prices(book, publish_depth)),
                None => Some(Vec::new()),
            }
        } else {
            None
        };
        let mut out: Vec<TickRecord> = Vec::new();
        push_ticks(&mut out, cursor, event, receipt_time, BookSide::Bid, &event.bids, &bid_filter);
        push_ticks(&mut out, cursor, event, receipt_time, BookSide::Ask, &event.asks, &ask_filter);
        assert(out@ =~= ticks_of(
            *cursor,
            *event,
            receipt_time,
            self.book_indexer.bid_map()[canonical_key(cursor.symbol_id.0)],
            self.book_indexer.ask_map()[canonical_key(cursor.symbol_id.0)],
        ));
        out
    }
}

} // verus!

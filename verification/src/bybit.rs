//! Bybit linear order-book stream: depth messages normalised into book
//! events.

use vstd::prelude::*;
use crate::binance::sat_sub;
use crate::binance::saturating_sub_i64;
use crate::decimal::{level_from_strings, level_of, level_panics, level_scalable};
use crate::error::ConnectorError;
use crate::levels::BookLevel;
use crate::models::{is_event, NormalizedBookEvent, DEFAULT_PRICE_SCALE, DEFAULT_QTY_SCALE};
use crate::text::str_eq;

verus! {

/// A Bybit `orderbook.*` message.
#[derive(Debug)]
pub struct BybitBookMessage {
    pub topic: String,
    pub event_type: String,
    pub ts: i64,
    pub data: BybitBookMessageData,
    pub cts: i64,
}

/// The body of a Bybit depth message: symbol, bid and ask rows
/// (`[price, size]` as strings), update id and cross sequence.
#[derive(Debug)]
pub struct BybitBookMessageData {
    pub s: String,
    pub b: Vec<Vec<String>>,
    pub a: Vec<Vec<String>>,
    pub u: i64,
    pub seq: i64,
}

/// The Bybit feed.
#[derive(Debug)]
pub struct BybitConnectorAdapter;

/// The level of one row: its first entry is the price, its last the size.
pub open spec fn row_level(row: Seq<String>) -> Option<BookLevel> {
    if row.len() == 0 {
        None
    } else {
        level_of(row[0]@, row.last()@)
    }
}

/// Scaling the row's level overflows a `Decimal`.
pub open spec fn row_panics(row: Seq<String>) -> bool {
    row.len() > 0 && level_panics(row[0]@, row.last()@)
}

/// The levels of `rows`, in order, rows without a level left out.
pub open spec fn rows_levels(rows: Seq<Vec<String>>) -> Seq<BookLevel>
    decreases rows.len(),
{
    if rows.len() == 0 {
        Seq::empty()
    } else {
        let prev = rows_levels(rows.drop_last());
        match row_level(rows.last()@) {
            Some(l) => prev.push(l),
            None => prev,
        }
    }
}

/// Some row of `rows` overflows when scaled.
pub open spec fn rows_panic(rows: Seq<Vec<String>>) -> bool {
    exists|i: int| 0 <= i < rows.len() && #[trigger] row_panics(rows[i]@)
}

/// The message carries no topic or no symbol and is ignored.
pub open spec fn ignored(m: BybitBookMessage) -> bool {
    m.topic@.len() == 0 || m.data.s@.len() == 0
}

/// Normalising `m` overflows a `Decimal` (where the feed's `*` panics).
pub open spec fn message_panics(m: BybitBookMessage) -> bool {
    !ignored(m) && (rows_panic(m.data.b@) || rows_panic(m.data.a@))
}

/// `e` is what the Bybit feed makes of `m`: symbol, exchange time, update
/// id `u` with `u - 1` (saturated) as its predecessor, a snapshot iff the
/// type is `snapshot`, and the rows' levels.
pub open spec fn bybit_event(m: BybitBookMessage, e: NormalizedBookEvent) -> bool {
    is_event(
        e,
        "bybit"@,
        m.data.s@,
        m.ts,
        m.data.u,
        sat_sub(m.data.u, 1),
        m.event_type@ == "snapshot"@,
        rows_levels(m.data.b@),
        rows_levels(m.data.a@),
    )
}

/// The level of one row (`parse_level`).
pub fn parse_level(level: &[String]) -> (r: Option<BookLevel>)
    requires
        !row_panics(level@),
    ensures
        r == row_level(level@),
{
    if level.len() == 0 {
        return None;
    }
    let price = &level[0];
    let size = &level[level.len() - 1];
    level_from_strings(price.as_str(), size.as_str())
}

/// The levels of `rows`, in order.
pub fn parse_rows(rows: &Vec<Vec<String>>) -> (r: Vec<BookLevel>)
    requires
        !rows_panic(rows@),
    ensures
        r@ == rows_levels(rows@),
{
    let mut out: Vec<BookLevel> = Vec::with_capacity(rows.len());
    let mut i: usize = 0;
    while i < rows.len()
        invariant
            i <= rows.len(),
            !rows_panic(rows@),
            out@ == rows_levels(rows@.take(i as int)),
        decreases rows.len() - i,
    {
        assert(!row_panics(rows@[i as int]@));
        let row = &rows[i];
        match parse_level(row.as_slice()) {
            Some(l) => out.push(l),
            None => {},
        }
        assert(rows@.take(i + 1).drop_last() =~= rows@.take(i as int));
        i = i + 1;
    }
    assert(rows@.take(rows.len() as int) =~= rows@);
    out
}

/// Whether no row of `rows` overflows when scaled.
pub fn rows_scalable(rows: &Vec<Vec<String>>) -> (r: bool)
    ensures
        r == !rows_panic(rows@),
{
    let mut i: usize = 0;
    while i < rows.len()
        invariant
            i <= rows.len(),
            forall|j: int| 0 <= j < i ==> !#[trigger] row_panics(rows@[j]@),
        decreases rows.len() - i,
    {
        let row = &rows[i];
        if row.len() > 0 && !level_scalable(row[0].as_str(), row[row.len() - 1].as_str()) {
            assert(row_panics(rows@[i as int]@));
            return false;
        }
        i = i + 1;
    }
    true
}

impl BybitConnectorAdapter {
    /// The feed's name.
    pub fn get_source_name(&self) -> (r: String)
        ensures
            r@ == "Bybit"@,
    {
        "Bybit".to_owned()
    }

    /// The topics to (un)subscribe for `instruments`: `orderbook.50.` and
    /// the symbol.
    pub fn subscription_args(&self, instruments: &[String]) -> (r: Vec<String>)
        ensures
            r.len() == instruments.len(),
            forall|i: int| 0 <= i < r.len() ==> #[trigger] r@[i]@ == "orderbook.50."@ + instruments@[i]@,
    {
        let mut out: Vec<String> = Vec::with_capacity(instruments.len());
        let mut i: usize = 0;
        while i < instruments.len()
            invariant
                i <= instruments.len(),
                out.len() == i,
                forall|j: int| 0 <= j < i ==> #[trigger] out@[j]@ == "orderbook.50."@ + instruments@[j]@,
            decreases instruments.len() - i,
        {
            let mut topic = "orderbook.50.".to_owned();
            topic.append(instruments[i].as_str());
            out.push(topic);
            i = i + 1;
        }
        out
    }

    /// The subscription operation: `unsubscribe` or `subscribe`.
    pub fn subscription_op(&self, is_unsub: bool) -> (r: &'static str)
        ensures
            r@ == (if is_unsub { "unsubscribe"@ } else { "subscribe"@ }),
    {
        if is_unsub {
            "unsubscribe"
        } else {
            "subscribe"
        }
    }

    /// The book event of a depth message; `None` for a message without
    /// topic or symbol.
    pub fn normalize(&self, m: &BybitBookMessage) -> (r: Option<NormalizedBookEvent>)
        requires
            !message_panics(*m),
        ensures
            r is None <==> ignored(*m),
            r matches Some(e) ==> bybit_event(*m, e),
    {
        if m.topic.as_str().unicode_len() == 0 || m.data.s.as_str().unicode_len() == 0 {
            return None;
        }
        let bids = parse_rows(&m.data.b);
        let asks = parse_rows(&m.data.a);
        let is_snapshot = str_eq(m.event_type.as_str(), "snapshot");
        Some(NormalizedBookEvent {
            exchange: "bybit".to_owned(),
            symbol: m.data.s.clone(),
            timestamp: m.ts,
            seq_id: m.data.u,
            prev_seq_id: saturating_sub_i64(m.data.u, 1),
            is_snapshot,
            price_scale: DEFAULT_PRICE_SCALE,
            size_scale: DEFAULT_QTY_SCALE,
            bids,
            asks,
        })
    }

    /// `normalize`, where scaling no level overflows; an error otherwise.
    pub fn parse_market_event(&self, m: &BybitBookMessage) -> (r: Result<Option<NormalizedBookEvent>, ConnectorError>)
        ensures
            r is Err <==> message_panics(*m),
            r matches Err(e) ==> e matches ConnectorError::ParseError(t) && t@ == "scaled level overflow"@,
            r matches Ok(o) ==> (o is None <==> ignored(*m)),
            r matches Ok(Some(e)) ==> bybit_event(*m, e),
    {
        if m.topic.as_str().unicode_len() > 0 && m.data.s.as_str().unicode_len() > 0 && !(rows_scalable(&m.data.b) && rows_scalable(&m.data.a)) {
            return Err(ConnectorError::ParseError("scaled level overflow".to_owned()));
        }
        Ok(self.normalize(m))
    }
}

} // verus!

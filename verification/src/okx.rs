//! OKX `books` channel: push messages normalised into book events.

use vstd::prelude::*;
use crate::decimal::{level_from_strings, level_of, level_panics, level_scalable};
use crate::error::ConnectorError;
use crate::levels::BookLevel;
use crate::models::{is_event, NormalizedBookEvent, DEFAULT_PRICE_SCALE, DEFAULT_QTY_SCALE};
use crate::text::{parse_i64, parsed_i64, str_eq};

verus! {

/// An OKX `books` push: the channel argument, the action (`snapshot` or
/// `update`) and the book data.
#[derive(Debug)]
pub struct OkxOrderBookMesssage {
    pub arg: Arg,
    pub action: String,
    pub data: Vec<OkxBookData>,
}

/// Channel and instrument of a push.
#[derive(Debug)]
pub struct Arg {
    pub channel: String,
    pub inst_id: String,
}

/// One book delta: levels, exchange time (milliseconds, as a string),
/// checksum and sequence ids.
#[derive(Debug)]
pub struct OkxBookData {
    pub asks: Vec<OkxOrderLevel>,
    pub bids: Vec<OkxOrderLevel>,
    pub ts: String,
    pub checksum: i32,
    pub seq_id: i64,
    pub prev_seq_id: i64,
}

/// One level as OKX sends it, all fields strings.
#[derive(Debug)]
pub struct OkxOrderLevel {
    pub price: String,
    pub size: String,
    pub liquid_price: String,
    pub count: String,
}

/// The OKX feed.
#[derive(Debug)]
pub struct OkxConnectorAdapter;

/// The levels of `levels`, in order, those without a level left out.
pub open spec fn okx_levels(levels: Seq<OkxOrderLevel>) -> Seq<BookLevel>
    decreases levels.len(),
{
    if levels.len() == 0 {
        Seq::empty()
    } else {
        let prev = okx_levels(levels.drop_last());
        match level_of(levels.last().price@, levels.last().size@) {
            Some(l) => prev.push(l),
            None => prev,
        }
    }
}

/// The bid levels of all deltas, delta after delta.
pub open spec fn deltas_bids(data: Seq<OkxBookData>) -> Seq<BookLevel>
    decreases data.len(),
{
    if data.len() == 0 {
        Seq::empty()
    } else {
        deltas_bids(data.drop_last()) + okx_levels(data.last().bids@)
    }
}

/// The ask levels of all deltas, delta after delta.
pub open spec fn deltas_asks(data: Seq<OkxBookData>) -> Seq<BookLevel>
    decreases data.len(),
{
    if data.len() == 0 {
        Seq::empty()
    } else {
        deltas_asks(data.drop_last()) + okx_levels(data.last().asks@)
    }
}

/// Some level of `levels` overflows when scaled.
pub open spec fn levels_panic(levels: Seq<OkxOrderLevel>) -> bool {
    exists|i: int| 0 <= i < levels.len() && #[trigger] level_panics(levels[i].price@, levels[i].size@)
}

/// Some level of the delta overflows when scaled.
pub open spec fn delta_panics(d: OkxBookData) -> bool {
    levels_panic(d.bids@) || levels_panic(d.asks@)
}

/// Some level of some delta overflows when scaled.
pub open spec fn deltas_panic(data: Seq<OkxBookData>) -> bool {
    exists|i: int| 0 <= i < data.len() && #[trigger] delta_panics(data[i])
}

/// The push has no instrument or no data and is ignored.
pub open spec fn ignored(m: OkxOrderBookMesssage) -> bool {
    m.arg.inst_id@.len() == 0 || m.data.len() == 0
}

/// Normalising `m` overflows a `Decimal` (where the feed's `*` panics).
pub open spec fn message_panics(m: OkxOrderBookMesssage) -> bool {
    !ignored(m) && deltas_panic(m.data@)
}

/// `e` is what the OKX feed makes of a push that is not ignored: the
/// instrument, the first delta's time (0 if it does not parse) and sequence
/// ids, a snapshot iff the action is `snapshot`, and all deltas' levels.
pub open spec fn okx_event(m: OkxOrderBookMesssage, e: NormalizedBookEvent) -> bool {
    let first = m.data@[0];
    is_event(
        e,
        "okx"@,
        m.arg.inst_id@,
        match parsed_i64(first.ts@) {
            Some(t) => t,
            None => 0,
        },
        first.seq_id,
        first.prev_seq_id,
        m.action@ == "snapshot"@,
        deltas_bids(m.data@),
        deltas_asks(m.data@),
    )
}

/// The level of one OKX level (`parse_level`).
pub fn parse_level(level: &OkxOrderLevel) -> (r: Option<BookLevel>)
    requires
        !level_panics(level.price@, level.size@),
    ensures
        r == level_of(level.price@, level.size@),
{
    level_from_strings(level.price.as_str(), level.size.as_str())
}

/// Appends the levels of `levels` to `out`.
fn push_levels(out: &mut Vec<BookLevel>, levels: &Vec<OkxOrderLevel>)
    requires
        !levels_panic(levels@),
    ensures
        final(out)@ == old(out)@ + okx_levels(levels@),
{
    let ghost start = out@;
    let mut i: usize = 0;
    while i < levels.len()
        invariant
            i <= levels.len(),
            !levels_panic(levels@),
            out@ == start + okx_levels(levels@.take(i as int)),
        decreases levels.len() - i,
    {
        assert(!level_panics(levels@[i as int].price@, levels@[i as int].size@));
        match parse_level(&levels[i]) {
            Some(l) => out.push(l),
            None => {},
        }
        assert(levels@.take(i + 1).drop_last() =~= levels@.take(i as int));
        i = i + 1;
    }
    assert(levels@.take(levels.len() as int) =~= levels@);
}

/// Whether no level of `levels` overflows when scaled.
pub fn levels_scalable(levels: &Vec<OkxOrderLevel>) -> (r: bool)
    ensures
        r == !levels_panic(levels@),
{
    let mut i: usize = 0;
    while i < levels.len()
        invariant
            i <= levels.len(),
            forall|j: int| 0 <= j < i ==> !#[trigger] level_panics(levels@[j].price@, levels@[j].size@),
        decreases levels.len() - i,
    {
        if !level_scalable(levels[i].price.as_str(), levels[i].size.as_str()) {
            return false;
        }
        i = i + 1;
    }
    true
}

/// Whether no level of any delta overflows when scaled.
pub fn deltas_scalable(data: &Vec<OkxBookData>) -> (r: bool)
    ensures
        r == !deltas_panic(data@),
{
    let mut i: usize = 0;
    while i < data.len()
        invariant
            i <= data.len(),
            forall|j: int| 0 <= j < i ==> !#[trigger] delta_panics(data@[j]),
        decreases data.len() - i,
    {
        if !(levels_scalable(&data[i].bids) && levels_scalable(&data[i].asks)) {
            assert(delta_panics(data@[i as int]));
            return false;
        }
        assert(!delta_panics(data@[i as int]));
        i = i + 1;
    }
    true
}

impl OkxConnectorAdapter {
    /// The feed's name.
    pub fn get_source_name(&self) -> (r: String)
        ensures
            r@ == "Okx"@,
    {
        "Okx".to_owned()
    }

    /// The channel subscribed for each instrument.
    pub fn subscription_channel(&self) -> (r: &'static str)
        ensures
            r@ == "books"@,
    {
        "books"
    }

    /// The subscription operation: `unsubscribe` or `subscribe`.
    pub fn subscription_op(&self, is_unsub: bool) -> (r: &'static str)
        ensures
            r@ == (if is_unsub { "unsubscribe"@ } else { "subscribe"@ }),
    {
        if is_unsub {
            "unsubscribe"
        } else {
            "subscribe"
        }
    }

    /// The book event of a push; `None` for a push without instrument or
    /// data.
    pub fn normalize(&self, m: &OkxOrderBookMesssage) -> (r: Option<NormalizedBookEvent>)
        requires
            !message_panics(*m),
        ensures
            r is None <==> ignored(*m),
            r matches Some(e) ==> okx_event(*m, e),
    {
        if m.arg.inst_id.as_str().unicode_len() == 0 || m.data.len() == 0 {
            return None;
        }
        let mut bids: Vec<BookLevel> = Vec::new();
        let mut asks: Vec<BookLevel> = Vec::new();
        let mut i: usize = 0;
        while i < m.data.len()
            invariant
                i <= m.data.len(),
                !deltas_panic(m.data@),
                bids@ == deltas_bids(m.data@.take(i as int)),
                asks@ == deltas_asks(m.data@.take(i as int)),
            decreases m.data.len() - i,
        {
            assert(!delta_panics(m.data@[i as int]));
            push_levels(&mut bids, &m.data[i].bids);
            push_levels(&mut asks, &m.data[i].asks);
            assert(m.data@.take(i + 1).drop_last() =~= m.data@.take(i as int));
            i = i + 1;
        }
        assert(m.data@.take(m.data.len() as int) =~= m.data@);
        let first = &m.data[0];
        let ts = match parse_i64(first.ts.as_str()) {
            Some(t) => t,
            None => 0,
        };
        let is_snapshot = str_eq(m.action.as_str(), "snapshot");
        Some(NormalizedBookEvent {
            exchange: "okx".to_owned(),
            symbol: m.arg.inst_id.clone(),
            timestamp: ts,
            seq_id: first.seq_id,
            prev_seq_id: first.prev_seq_id,
            is_snapshot,
            price_scale: DEFAULT_PRICE_SCALE,
            size_scale: DEFAULT_QTY_SCALE,
            bids,
            asks,
        })
    }

    /// `normalize`, where scaling no level overflows; an error otherwise.
    pub fn parse_market_event(&self, m: &OkxOrderBookMesssage) -> (r: Result<Option<NormalizedBookEvent>, ConnectorError>)
        ensures
            r is Err <==> message_panics(*m),
            r matches Err(e) ==> e matches ConnectorError::ParseError(t) && t@ == "scaled level overflow"@,
            r matches Ok(o) ==> (o is None <==> ignored(*m)),
            r matches Ok(Some(e)) ==> okx_event(*m, e),
    {
        if m.arg.inst_id.as_str().unicode_len() > 0 && m.data.len() > 0 && !deltas_scalable(&m.data) {
            return Err(ConnectorError::ParseError("scaled level overflow".to_owned()));
        }
        Ok(self.normalize(m))
    }
}

} // verus!

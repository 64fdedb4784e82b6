//! The OKX book service: one book per instrument kept from `books` pushes,
//! the CRC32 checksum OKX defines over the top 25 levels, sequence and
//! checksum alerts, and periodic snapshots.

use vstd::prelude::*;
use crate::dbook::{map_insert, DecimalLevels};
use crate::decimal::{
    decimal_or_zero, decimal_text, decimal_to_text, lemma_normalized_wf, normalize_decimal, normalized,
    parse_decimal_or_zero, value28, DecimalParts,
};
use crate::l2book::{book_snapshot, is_book_snapshot, BookSnapShot, OrderBookCommand};
use crate::text::{parsed_i64, str_eq};

verus! {

/// An OKX `books` push as the book service reads it.
#[derive(Debug)]
pub struct OkxOrderBookMesssage {
    pub arg: Arg,
    pub action: String,
    pub data: Vec<BookData>,
}

/// Channel and instrument of a push.
#[derive(Debug)]
pub struct Arg {
    pub channel: String,
    pub inst_id: String,
}

/// One book delta of a push.
#[derive(Debug)]
pub struct BookData {
    pub asks: Vec<OrderLevel>,
    pub bids: Vec<OrderLevel>,
    pub ts: String,
    pub checksum: i32,
    pub seq_id: i64,
    pub prev_seq_id: i64,
}

/// One level of a delta, all fields strings.
#[derive(Debug)]
pub struct OrderLevel {
    pub price: String,
    pub size: String,
    pub liquid_price: String,
    pub count: String,
}

/// The book of one instrument: exchange time of the last delta and both
/// sides keyed by decimal price.
#[derive(Debug)]
pub struct OkxOrderBook {
    pub ts: String,
    pub instrument_id: String,
    pub bids: DecimalLevels,
    pub asks: DecimalLevels,
}

/// An alert of the book service.
#[derive(Debug)]
#[allow(inconsistent_fields)]
pub enum AuditEvent {
    SeqIdGap { symbol: String, expected: i64, actual: i64 },
    CheckSumFailure { symbol: String, expected: i32, actual: i32 },
    IngestFail { details: Option<String> },
}

/// The row an alert is recorded as: its type, symbol, expected and actual
/// values (widened to `i64`) and details.
#[derive(Debug)]
pub struct AuditRow {
    pub event_type: &'static str,
    pub symbol: String,
    pub expected: Option<i64>,
    pub actual: Option<i64>,
    pub details: Option<String>,
}

impl AuditEvent {
    /// The row recorded for the alert: `SEQ_GAP`, `CHECKSUM_FAIL` or
    /// `INGEST_FAIL` (with an empty symbol and no values).
    pub fn audit_row(self) -> (r: AuditRow)
        ensures
            match self {
                AuditEvent::SeqIdGap { symbol, expected, actual } => r.event_type@ == "SEQ_GAP"@ && r.symbol == symbol
                    && r.expected == Some(expected) && r.actual == Some(actual) && r.details is None,
                AuditEvent::CheckSumFailure { symbol, expected, actual } => r.event_type@ == "CHECKSUM_FAIL"@ && r.symbol
                    == symbol && r.expected == Some(expected as i64) && r.actual == Some(actual as i64) && r.details is None,
                AuditEvent::IngestFail { details } => r.event_type@ == "INGEST_FAIL"@ && r.symbol@ == Seq::<char>::empty()
                    && r.expected is None && r.actual is None && r.details == details,
            },
    {
        match self {
            AuditEvent::SeqIdGap { symbol, expected, actual } => AuditRow {
                event_type: "SEQ_GAP",
                symbol,
                expected: Some(expected),
                actual: Some(actual),
                details: None,
            },
            AuditEvent::CheckSumFailure { symbol, expected, actual } => AuditRow {
                event_type: "CHECKSUM_FAIL",
                symbol,
                expected: Some(expected as i64),
                actual: Some(actual as i64),
                details: None,
            },
            AuditEvent::IngestFail { details } => AuditRow {
                event_type: "INGEST_FAIL",
                symbol: String::new(),
                expected: None,
                actual: None,
                details,
            },
        }
    }
}

/// An alert as a value: a sequence gap (the push's previous id, the last id
/// seen) or a checksum mismatch (the push's checksum, the local one).
#[derive(Debug, Clone, Copy, PartialEq, Eq, Structural)]
#[allow(inconsistent_fields)]
pub enum AlertSpec {
    Gap { expected: i64, actual: i64 },
    Checksum { expected: i32, actual: i32 },
}

/// `e` is the alert `a` for `symbol`.
pub open spec fn alert_is(e: AuditEvent, symbol: Seq<char>, a: AlertSpec) -> bool {
    match (e, a) {
        (AuditEvent::SeqIdGap { symbol: s, expected: x, actual: y }, AlertSpec::Gap { expected, actual }) => s@ == symbol
            && x == expected && y == actual,
        (
            AuditEvent::CheckSumFailure { symbol: s, expected: x, actual: y },
            AlertSpec::Checksum { expected, actual },
        ) => s@ == symbol && x == expected && y == actual,
        _ => false,
    }
}

/// CRC32 (as `crc32fast` computes it) of the UTF-8 bytes of `s`.
pub uninterp spec fn crc32_text(s: Seq<char>) -> u32;

/// `crc32fast::hash` over the bytes of `s`.
#[verifier::external_body]
fn crc32_of_text(s: &str) -> (r: u32)
    ensures
        r == crc32_text(s@),
{
    crc32fast::hash(s.as_bytes())
}

/// Levels per side covered by the checksum.
pub const CHECKSUM_DEPTH: usize = 25;

/// Levels per side in a snapshot of the service.
pub const OKX_SNAPSHOT_DEPTH: usize = 25;

/// The text of an entry in the checksum string: its price and its size,
/// each normalized and written as `Decimal` writes it.
pub open spec fn entry_texts(k: DecimalParts, v: DecimalParts) -> Seq<Seq<char>> {
    seq![decimal_text(normalized(k)), decimal_text(normalized(v))]
}

/// The checksum parts of the first `n` rounds: in round `k`, the `k`-th
/// best bid (from the highest price) then the `k`-th best ask, each when
/// the side has one.
pub open spec fn checksum_parts(
    bk: Seq<DecimalParts>,
    bv: Seq<DecimalParts>,
    ak: Seq<DecimalParts>,
    av: Seq<DecimalParts>,
    n: nat,
) -> Seq<Seq<char>>
    decreases n,
{
    if n == 0 {
        Seq::empty()
    } else {
        let k = n - 1;
        let prev = checksum_parts(bk, bv, ak, av, (n - 1) as nat);
        let with_bid = if k < bk.len() {
            prev + entry_texts(bk[bk.len() - 1 - k], bv[bk.len() - 1 - k])
        } else {
            prev
        };
        if k < ak.len() {
            with_bid + entry_texts(ak[k], av[k])
        } else {
            with_bid
        }
    }
}

/// `parts` joined with `:`.
pub open spec fn join_colon(parts: Seq<Seq<char>>) -> Seq<char>
    decreases parts.len(),
{
    if parts.len() == 0 {
        Seq::empty()
    } else if parts.len() == 1 {
        parts[0]
    } else {
        join_colon(parts.drop_last()) + ":"@ + parts.last()
    }
}

/// The local checksum of a book with these sides.
pub open spec fn checksum_of(bids: DecimalLevels, asks: DecimalLevels) -> i32 {
    crc32_text(join_colon(checksum_parts(bids.keys@, bids.values@, asks.keys@, asks.values@, CHECKSUM_DEPTH as nat)))
        as i32
}

/// The local checksum of the book whose sides have these maps.
pub open spec fn checksum_of_maps(
    b: Map<int, (DecimalParts, DecimalParts)>,
    a: Map<int, (DecimalParts, DecimalParts)>,
) -> i32 {
    let lb = choose|l: DecimalLevels| l.wf() && l.as_map() == b;
    let la = choose|l: DecimalLevels| l.wf() && l.as_map() == a;
    checksum_of(lb, la)
}

/// The checksum of well-formed sides depends on their maps alone.
pub proof fn lemma_checksum_by_maps(bids: DecimalLevels, asks: DecimalLevels)
    requires
        bids.wf(),
        asks.wf(),
    ensures
        checksum_of(bids, asks) == checksum_of_maps(bids.as_map(), asks.as_map()),
{
    let lb = choose|l: DecimalLevels| l.wf() && l.as_map() == bids.as_map();
    let la = choose|l: DecimalLevels| l.wf() && l.as_map() == asks.as_map();
    DecimalLevels::lemma_determined_by_map(bids, lb);
    DecimalLevels::lemma_determined_by_map(asks, la);
}

/// `m` after the levels of a delta in turn: a size written `0` removes the
/// price; otherwise the size is set (strings that do not parse count as
/// zero).
pub open spec fn okx_levels_applied(m: Map<int, (DecimalParts, DecimalParts)>, levels: Seq<OrderLevel>) -> Map<
    int,
    (DecimalParts, DecimalParts),
>
    decreases levels.len(),
{
    if levels.len() == 0 {
        m
    } else {
        let prev = okx_levels_applied(m, levels.drop_last());
        let l = levels.last();
        if l.size@ == "0"@ {
            prev.remove(value28(decimal_or_zero(l.price@)))
        } else {
            map_insert(prev, decimal_or_zero(l.price@), decimal_or_zero(l.size@))
        }
    }
}

/// The service's view of one book: exchange time, instrument, bid map, ask
/// map, and the last sequence id seen.
pub type OkxView = (Seq<char>, Seq<char>, Map<int, (DecimalParts, DecimalParts)>, Map<int, (DecimalParts, DecimalParts)>, i64);

/// One delta of an `update` push: a previous id other than the last seen is
/// a gap; the levels are applied; the delta's id becomes the last seen; on
/// every hundredth id a checksum other than the local one is an alert.
pub open spec fn update_step(v: OkxView, d: BookData) -> (OkxView, Seq<AlertSpec>) {
    let gap = if d.prev_seq_id != v.4 {
        seq![AlertSpec::Gap { expected: d.prev_seq_id, actual: v.4 }]
    } else {
        Seq::empty()
    };
    let nb = okx_levels_applied(v.2, d.bids@);
    let na = okx_levels_applied(v.3, d.asks@);
    let cs = checksum_of_maps(nb, na);
    let mismatch = if d.seq_id % 100 == 0 && d.checksum != cs {
        seq![AlertSpec::Checksum { expected: d.checksum, actual: cs }]
    } else {
        Seq::empty()
    };
    ((d.ts@, v.1, nb, na, d.seq_id), gap + mismatch)
}

/// The deltas of an `update` push in turn, with all their alerts.
pub open spec fn updates_fold(v: OkxView, data: Seq<BookData>) -> (OkxView, Seq<AlertSpec>)
    decreases data.len(),
{
    if data.len() == 0 {
        (v, Seq::empty())
    } else {
        let (v1, a1) = updates_fold(v, data.drop_last());
        let (v2, a2) = update_step(v1, data.last());
        (v2, a1 + a2)
    }
}

/// The deltas of a `snapshot` push in turn: each sets the exchange time and
/// the last id seen, and applies its levels.
pub open spec fn snapshot_fold(v: OkxView, data: Seq<BookData>) -> OkxView
    decreases data.len(),
{
    if data.len() == 0 {
        v
    } else {
        let v1 = snapshot_fold(v, data.drop_last());
        let d = data.last();
        (d.ts@, v1.1, okx_levels_applied(v1.2, d.bids@), okx_levels_applied(v1.3, d.asks@), d.seq_id)
    }
}

/// Applies the levels of a delta to one side.
fn apply_okx_levels(side: &mut DecimalLevels, levels: &Vec<OrderLevel>)
    requires
        old(side).wf(),
    ensures
        final(side).wf(),
        final(side).as_map() == okx_levels_applied(old(side).as_map(), levels@),
{
    let ghost start = side.as_map();
    let mut i: usize = 0;
    while i < levels.len()
        invariant
            i <= levels.len(),
            side.wf(),
            side.as_map() == okx_levels_applied(start, levels@.take(i as int)),
        decreases levels.len() - i,
    {
        let level = &levels[i];
        assert(levels@.take(i + 1).drop_last() =~= levels@.take(i as int));
        let price = parse_decimal_or_zero(level.price.as_str());
        let size = parse_decimal_or_zero(level.size.as_str());
        if str_eq(level.size.as_str(), "0") {
            side.remove(price);
        } else {
            side.insert(price, size);
        }
        i = i + 1;
    }
    assert(levels@.take(levels.len() as int) =~= levels@);
}

/// `Decimal::normalize` then `to_string`.
fn normalized_text(d: DecimalParts) -> (r: String)
    requires
        d.wf(),
    ensures
        r@ == decimal_text(normalized(d)),
{
    proof {
        lemma_normalized_wf(d);
    }
    decimal_to_text(normalize_decimal(d))
}

/// `parts` joined with `:`.
fn join_with_colon(parts: &Vec<String>) -> (r: String)
    ensures
        r@ == join_colon(parts@.map_values(|s: String| s@)),
{
    let ghost views = parts@.map_values(|s: String| s@);
    let mut out = String::new();
    let mut i: usize = 0;
    while i < parts.len()
        invariant
            i <= parts.len(),
            views == parts@.map_values(|s: String| s@),
            out@ == join_colon(views.take(i as int)),
        decreases parts.len() - i,
    {
        assert(views.take(i + 1).drop_last() =~= views.take(i as int));
        if i > 0 {
            out.append(":");
        } else {
            assert(views.take(0) =~= Seq::<Seq<char>>::empty());
            assert(out@ =~= Seq::<char>::empty());
        }
        out.append(parts[i].as_str());
        proof {
            if i == 0 {
                assert(out@ =~= views.take(1)[0]);
            }
        }
        i = i + 1;
    }
    assert(views.take(parts.len() as int) =~= views);
    out
}

impl OkxOrderBook {
    /// Both sides are well formed.
    pub open spec fn wf(&self) -> bool {
        self.bids.wf() && self.asks.wf()
    }

    /// An empty book of `inst_id`.
    pub fn new(inst_id: String) -> (r: Self)
        ensures
            r.wf(),
            r.ts@ == Seq::<char>::empty(),
            r.instrument_id == inst_id,
            r.bids.as_map() == Map::<int, (DecimalParts, DecimalParts)>::empty(),
            r.asks.as_map() == Map::<int, (DecimalParts, DecimalParts)>::empty(),
    {
        OkxOrderBook { ts: String::new(), instrument_id: inst_id, bids: DecimalLevels::new(), asks: DecimalLevels::new() }
    }

    /// Applies a delta's asks, then its bids.
    pub fn updates(&mut self, update_data: &BookData)
        requires
            old(self).wf(),
        ensures
            final(self).wf(),
            final(self).ts == old(self).ts,
            final(self).instrument_id == old(self).instrument_id,
            final(self).bids.as_map() == okx_levels_applied(old(self).bids.as_map(), update_data.bids@),
            final(self).asks.as_map() == okx_levels_applied(old(self).asks.as_map(), update_data.asks@),
    {
        apply_okx_levels(&mut self.asks, &update_data.asks);
        apply_okx_levels(&mut self.bids, &update_data.bids);
    }

    /// The checksum OKX defines: CRC32 of the `:`-joined texts of the top
    /// 25 bids and asks, interleaved, read as an `i32`.
    pub fn calculate_local_checksum(&self) -> (r: i32)
        requires
            self.wf(),
        ensures
            r == checksum_of(self.bids, self.asks),
    {
        let nb = self.bids.keys.len();
        let na = self.asks.keys.len();
        let mut parts: Vec<String> = Vec::new();
        let mut k: usize = 0;
        while k < CHECKSUM_DEPTH
            invariant
                self.wf(),
                nb == self.bids.keys@.len(),
                na == self.asks.keys@.len(),
                k <= CHECKSUM_DEPTH,
                parts@.map_values(|s: String| s@) == checksum_parts(
                    self.bids.keys@,
                    self.bids.values@,
                    self.asks.keys@,
                    self.asks.values@,
                    k as nat,
                ),
            decreases CHECKSUM_DEPTH - k,
        {
            let ghost before = parts@.map_values(|s: String| s@);
            if k < nb {
                let p = normalized_text(self.bids.keys[nb - 1 - k]);
                let s = normalized_text(self.bids.values[nb - 1 - k]);
                parts.push(p);
                parts.push(s);
            }
            let ghost mid = parts@.map_values(|s: String| s@);
            assert(mid =~= (if k < nb {
                before + entry_texts(self.bids.keys@[nb - 1 - k], self.bids.values@[nb - 1 - k])
            } else {
                before
            }));
            if k < na {
                let p = normalized_text(self.asks.keys[k]);
                let s = normalized_text(self.asks.values[k]);
                parts.push(p);
                parts.push(s);
            }
            assert(parts@.map_values(|s: String| s@) =~= (if k < na {
                mid + entry_texts(self.asks.keys@[k as int], self.asks.values@[k as int])
            } else {
                mid
            }));
            k = k + 1;
        }
        let joined = join_with_colon(&parts);
        let h = crc32_of_text(joined.as_str());
        h as i32
    }
}

/// What the service asks its surroundings to do after a command: for each
/// alert, resubscribe the instrument and record the alert; and the snapshot
/// to ingest.
pub struct OkxBookOutput {
    pub alerts: Vec<AuditEvent>,
    pub snapshot: Option<BookSnapShot>,
}

/// One instrument's book with the last sequence id seen (`run`'s state).
pub struct OkxBookWorker {
    pub book: OkxOrderBook,
    pub local_previous_seq_id: i64,
}

impl OkxBookWorker {
    /// The book and the last id seen as a value.
    pub open spec fn view_of(&self) -> OkxView {
        (self.book.ts@, self.book.instrument_id@, self.book.bids.as_map(), self.book.asks.as_map(), self.local_previous_seq_id)
    }

    /// A worker for `book`, no sequence id seen yet.
    pub fn new(book: OkxOrderBook) -> (r: Self)
        ensures
            r.book == book,
            r.local_previous_seq_id == 0,
    {
        OkxBookWorker { book, local_previous_seq_id: 0 }
    }

    /// One delta of an `update` push.
    fn update_one(&mut self, data: &BookData, alerts: &mut Vec<AuditEvent>)
        requires
            old(self).book.wf(),
        ensures
            final(self).book.wf(),
            final(self).view_of() == update_step(old(self).view_of(), *data).0,
            final(alerts)@.len() == old(alerts)@.len() + update_step(old(self).view_of(), *data).1.len(),
            forall|j: int| 0 <= j < old(alerts)@.len() ==> #[trigger] final(alerts)@[j] == old(alerts)@[j],
            forall|j: int|
                0 <= j < update_step(old(self).view_of(), *data).1.len() ==> alert_is(
                    #[trigger] final(alerts)@[old(alerts)@.len() + j],
                    old(self).book.instrument_id@,
                    update_step(old(self).view_of(), *data).1[j],
                ),
    {
        self.book.ts = data.ts.clone();
        if data.prev_seq_id != self.local_previous_seq_id {
            alerts.push(AuditEvent::SeqIdGap {
                symbol: self.book.instrument_id.clone(),
                expected: data.prev_seq_id,
                actual: self.local_previous_seq_id,
            });
        }
        self.book.updates(data);
        self.local_previous_seq_id = data.seq_id;
        if data.seq_id % 100 == 0 {
            let local = self.book.calculate_local_checksum();
            proof {
                lemma_checksum_by_maps(self.book.bids, self.book.asks);
            }
            if data.checksum != local {
                alerts.push(AuditEvent::CheckSumFailure {
                    symbol: self.book.instrument_id.clone(),
                    expected: data.checksum,
                    actual: local,
                });
            }
        }
        proof {
            lemma_checksum_by_maps(self.book.bids, self.book.asks);
        }
    }

    /// Handles one command (`run`'s loop body). An `update` push checks and
    /// applies its deltas in turn; a `snapshot` push empties the book, takes
    /// the push's instrument and applies its deltas; other pushes, and
    /// pushes that did not parse, change nothing. A snapshot command with a
    /// local time publishes the top 25 levels when the exchange time parses.
    pub fn handle(&mut self, command: OrderBookCommand<OkxOrderBookMesssage>, now: Option<i64>) -> (out: OkxBookOutput)
        requires
            old(self).book.wf(),
        ensures
            final(self).book.wf(),
            match command {
                OrderBookCommand::Update(Some(msg)) => if msg.action@ == "update"@ {
                    let (v, al) = updates_fold(old(self).view_of(), msg.data@);
                    &&& final(self).view_of() == v
                    &&& out.alerts@.len() == al.len()
                    &&& forall|j: int| 0 <= j < al.len() ==> alert_is(#[trigger] out.alerts@[j], old(self).book.instrument_id@, al[j])
                    &&& out.snapshot is None
                } else if msg.action@ == "snapshot"@ {
                    let v0 = (old(self).book.ts@, msg.arg.inst_id@, Map::empty(), Map::empty(), old(self).local_previous_seq_id);
                    &&& final(self).view_of() == snapshot_fold(v0, msg.data@)
                    &&& out.alerts@.len() == 0 && out.snapshot is None
                } else {
                    final(self).view_of() == old(self).view_of() && out.alerts@.len() == 0 && out.snapshot is None
                },
                OrderBookCommand::Update(None) => final(self).view_of() == old(self).view_of() && out.alerts@.len() == 0
                    && out.snapshot is None,
                OrderBookCommand::TakeSnapShot => {
                    &&& final(self).view_of() == old(self).view_of()
                    &&& out.alerts@.len() == 0
                    &&& (out.snapshot is Some <==> now is Some && parsed_i64(old(self).book.ts@) is Some)
                    &&& out.snapshot matches Some(s) ==> is_book_snapshot(
                        s,
                        old(self).book.instrument_id@,
                        old(self).book.ts@,
                        old(self).book.bids,
                        old(self).book.asks,
                        OKX_SNAPSHOT_DEPTH as nat,
                        now->0,
                    )
                },
            },
    {
        match command {
            OrderBookCommand::Update(Some(msg)) => {
                if str_eq(msg.action.as_str(), "update") {
                    let ghost v0 = self.view_of();
                    let ghost symbol = self.book.instrument_id@;
                    let mut alerts: Vec<AuditEvent> = Vec::new();
                    let mut i: usize = 0;
                    while i < msg.data.len()
                        invariant
                            i <= msg.data.len(),
                            self.book.wf(),
                            self.book.instrument_id@ == symbol,
                            self.view_of() == updates_fold(v0, msg.data@.take(i as int)).0,
                            alerts@.len() == updates_fold(v0, msg.data@.take(i as int)).1.len(),
                            forall|j: int|
                                0 <= j < alerts@.len() ==> alert_is(
                                    #[trigger] alerts@[j],
                                    symbol,
                                    updates_fold(v0, msg.data@.take(i as int)).1[j],
                                ),
                        decreases msg.data.len() - i,
                    {
                        let ghost prev_alerts = alerts@;
                        let ghost folded = updates_fold(v0, msg.data@.take(i as int));
                        assert(msg.data@.take(i + 1).drop_last() =~= msg.data@.take(i as int));
                        self.update_one(&msg.data[i], &mut alerts);
                        proof {
                            let step = update_step(folded.0, msg.data@[i as int]);
                            let next = updates_fold(v0, msg.data@.take(i + 1));
                            assert(next.1 =~= folded.1 + step.1);
                            assert forall|j: int| 0 <= j < alerts@.len() implies alert_is(
                                #[trigger] alerts@[j],
                                symbol,
                                next.1[j],
                            ) by {
                                if j < prev_alerts.len() {
                                    assert(alerts@[j] == prev_alerts[j]);
                                } else {
                                    let k = j - prev_alerts.len();
                                    assert(alerts@[prev_alerts.len() + k] == alerts@[j]);
                                }
                            }
                        }
                        i = i + 1;
                    }
                    assert(msg.data@.take(msg.data.len() as int) =~= msg.data@);
                    OkxBookOutput { alerts, snapshot: None }
                } else if str_eq(msg.action.as_str(), "snapshot") {
                    self.book.bids.clear();
                    self.book.asks.clear();
                    self.book.instrument_id = msg.arg.inst_id.clone();
                    let ghost v0 = self.view_of();
                    let mut i: usize = 0;
                    while i < msg.data.len()
                        invariant
                            i <= msg.data.len(),
                            self.book.wf(),
                            self.view_of() == snapshot_fold(v0, msg.data@.take(i as int)),
                        decreases msg.data.len() - i,
                    {
                        assert(msg.data@.take(i + 1).drop_last() =~= msg.data@.take(i as int));
                        self.book.ts = msg.data[i].ts.clone();
                        self.local_previous_seq_id = msg.data[i].seq_id;
                        self.book.updates(&msg.data[i]);
                        i = i + 1;
                    }
                    assert(msg.data@.take(msg.data.len() as int) =~= msg.data@);
                    OkxBookOutput { alerts: Vec::new(), snapshot: None }
                } else {
                    OkxBookOutput { alerts: Vec::new(), snapshot: None }
                }
            },
            OrderBookCommand::Update(None) => OkxBookOutput { alerts: Vec::new(), snapshot: None },
            OrderBookCommand::TakeSnapShot => {
                let snapshot = match now {
                    Some(t) => book_snapshot(
                        &self.book.instrument_id,
                        &self.book.ts,
                        &self.book.bids,
                        &self.book.asks,
                        OKX_SNAPSHOT_DEPTH,
                        t,
                    ),
                    None => None,
                };
                OkxBookOutput { alerts: Vec::new(), snapshot }
            },
        }
    }
}

} // verus!

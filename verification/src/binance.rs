//! Binance depth-stream synchronisation: after a REST or stream snapshot with
//! update id `S`, the first diff must bridge `S + 1`; later diffs are chained
//! by their update ids.

use vstd::prelude::*;
use vstd::hash_map::StringHashMap;
use vstd::utf8::{decode_utf8, valid_utf8};
use crate::decimal::{
    checked_product, decimal_error_text, decimal_product, decimal_to_u32, decimal_to_u64, level_from,
    level_panics, lemma_pow10_mono, parse_decimal, parsed_decimal, pow10, scale_and_round, scaled_level,
    scaled_rounded, scaling_fits, scaling_overflows, u32_value, u64_value, whole, DecimalParts,
};
use crate::error::ConnectorError;
use crate::levels::BookLevel;
use crate::models::{is_event, NormalizedBookEvent, DEFAULT_PRICE_SCALE, DEFAULT_QTY_SCALE};
use crate::sbe::{
    decode_depth, depth_of, read_u16, u16_le, DepthFields, DEPTH_DIFF_TEMPLATE_ID, DEPTH_SNAPSHOT_TEMPLATE_ID,
    SBE_HEADER_LEN, SBE_SCHEMA_ID,
};
use crate::text::{lower_of, str_from_utf8, to_ascii_lowercase, to_ascii_uppercase, upper_of};

verus! {

/// Where a Binance symbol stands in the snapshot/diff protocol.
#[derive(Debug, Clone, Copy, PartialEq, Eq, Structural)]
pub enum BinanceSyncState {
    AwaitingBridge { snapshot_last_update_id: i64 },
    Synced { last_update_id: i64 },
}

/// `a + b` saturated to the `i64` range.
pub open spec fn sat_add(a: i64, b: i64) -> i64 {
    if a + b > i64::MAX {
        i64::MAX
    } else if a + b < i64::MIN {
        i64::MIN
    } else {
        (a + b) as i64
    }
}

/// `a - b` saturated to the `i64` range.
pub open spec fn sat_sub(a: i64, b: i64) -> i64 {
    if a - b > i64::MAX {
        i64::MAX
    } else if a - b < i64::MIN {
        i64::MIN
    } else {
        (a - b) as i64
    }
}

/// `i64::saturating_add`.
pub fn saturating_add_i64(a: i64, b: i64) -> (r: i64)
    ensures
        r == sat_add(a, b),
{
    match a.checked_add(b) {
        Some(v) => v,
        None => if b > 0 { i64::MAX } else { i64::MIN },
    }
}

/// `i64::saturating_sub`.
pub fn saturating_sub_i64(a: i64, b: i64) -> (r: i64)
    ensures
        r == sat_sub(a, b),
{
    match a.checked_sub(b) {
        Some(v) => v,
        None => if b < 0 { i64::MAX } else { i64::MIN },
    }
}

/// The outcome of a diff `[first, last]` against the stored state: the
/// `(seq_id, prev_seq_id)` to publish, if any, and the state to store.
pub open spec fn diff_outcome(state: Option<BinanceSyncState>, first: i64, last: i64) -> (Option<(i64, i64)>, Option<BinanceSyncState>) {
    match state {
        None => (None, None),
        Some(BinanceSyncState::AwaitingBridge { snapshot_last_update_id: s }) => {
            if last <= s {
                (None, state)
            } else if first <= sat_add(s, 1) && sat_add(s, 1) <= last {
                (Some((last, s)), Some(BinanceSyncState::Synced { last_update_id: last }))
            } else {
                (None, state)
            }
        },
        Some(BinanceSyncState::Synced { last_update_id: l }) => {
            if last <= l {
                (None, state)
            } else {
                let prev = if first <= sat_add(l, 1) { l } else { sat_sub(first, 1) };
                (Some((last, prev)), Some(BinanceSyncState::Synced { last_update_id: last }))
            }
        },
    }
}

/// The state stored for `symbol`, if any.
pub open spec fn state_of(m: Map<Seq<char>, BinanceSyncState>, symbol: Seq<char>) -> Option<BinanceSyncState> {
    if m.contains_key(symbol) {
        Some(m[symbol])
    } else {
        None
    }
}

/// Decides whether a diff covering update ids `[first_book_update_id,
/// last_book_update_id]` is published, with which `(seq_id, prev_seq_id)`,
/// and advances the symbol's state (`resolve_diff_sequence`).
pub fn resolve_diff_sequence(
    sync_state: &mut StringHashMap<BinanceSyncState>,
    symbol: &str,
    first_book_update_id: i64,
    last_book_update_id: i64,
) -> (r: Option<(i64, i64)>)
    ensures
        r == diff_outcome(state_of(old(sync_state)@, symbol@), first_book_update_id, last_book_update_id).0,
        final(sync_state)@ == (match diff_outcome(state_of(old(sync_state)@, symbol@), first_book_update_id, last_book_update_id).1 {
            Some(s) => old(sync_state)@.insert(symbol@, s),
            None => old(sync_state)@,
        }),
{
    let state = match sync_state.get(symbol) {
        Some(s) => *s,
        None => {
            return None;
        },
    };
    match state {
        BinanceSyncState::AwaitingBridge { snapshot_last_update_id } => {
            if last_book_update_id <= snapshot_last_update_id {
                assert(old(sync_state)@.insert(symbol@, state) =~= old(sync_state)@);
                return None;
            }
            let next_expected = saturating_add_i64(snapshot_last_update_id, 1);
            if first_book_update_id <= next_expected && next_expected <= last_book_update_id {
                sync_state.insert(symbol.to_owned(), BinanceSyncState::Synced { last_update_id: last_book_update_id });
                Some((last_book_update_id, snapshot_last_update_id))
            } else {
                assert(old(sync_state)@.insert(symbol@, state) =~= old(sync_state)@);
                None
            }
        },
        BinanceSyncState::Synced { last_update_id } => {
            if last_book_update_id <= last_update_id {
                assert(old(sync_state)@.insert(symbol@, state) =~= old(sync_state)@);
                return None;
            }
            let next_expected = saturating_add_i64(last_update_id, 1);
            let prev_seq_id = if first_book_update_id <= next_expected {
                last_update_id
            } else {
                saturating_sub_i64(first_book_update_id, 1)
            };
            sync_state.insert(symbol.to_owned(), BinanceSyncState::Synced { last_update_id: last_book_update_id });
            Some((last_book_update_id, prev_seq_id))
        },
    }
}

/// Records a snapshot with update id `snapshot_last_update_id` for `symbol`:
/// the next diff must bridge it (`set_snapshot_state`).
pub fn set_snapshot_state(sync_state: &mut StringHashMap<BinanceSyncState>, symbol: &str, snapshot_last_update_id: i64)
    ensures
        final(sync_state)@ == old(sync_state)@.insert(
            symbol@,
            BinanceSyncState::AwaitingBridge { snapshot_last_update_id },
        ),
{
    sync_state.insert(symbol.to_owned(), BinanceSyncState::AwaitingBridge { snapshot_last_update_id });
}

/// `10^n` as an `i64`, `None` where it overflows (`i64::checked_pow`).
pub fn checked_pow10_i64(n: u32) -> (r: Option<i64>)
    ensures
        r == (if pow10(n as nat) <= i64::MAX { Some(pow10(n as nat) as i64) } else { None::<i64> }),
{
    let mut acc: i64 = 1;
    let mut i: u32 = 0;
    while i < n
        invariant
            i <= n,
            acc == pow10(i as nat),
        decreases n - i,
    {
        match acc.checked_mul(10) {
            Some(v) => {
                acc = v;
            },
            None => {
                proof {
                    lemma_pow10_mono((i + 1) as nat, n as nat);
                }
                return None;
            },
        }
        i = i + 1;
    }
    Some(acc)
}

/// The decimal a mantissa and a power-of-ten exponent stand for: `None`
/// for a negative mantissa; `raw / 10^-exponent` for a negative exponent;
/// else `raw * 10^exponent`, when `10^exponent` fits an `i64` and the
/// product a `Decimal`.
pub open spec fn mantissa_decimal(raw: i64, exponent: i8) -> Option<DecimalParts> {
    if raw < 0 {
        None
    } else if exponent < 0 {
        Some(DecimalParts { negative: false, mantissa: raw as u128, scale: (-exponent) as u32 })
    } else if pow10(exponent as nat) > i64::MAX {
        None
    } else {
        decimal_product(whole(raw as nat), whole(pow10(exponent as nat)))
    }
}

/// Building the decimal panics: a scale `-exponent` above 28.
pub open spec fn mantissa_panics(raw: i64, exponent: i8) -> bool {
    raw >= 0 && exponent < -28
}

/// The decimal for mantissa `raw` and exponent `exponent`
/// (`decimal_from_mantissa`).
pub fn decimal_from_mantissa(raw: i64, exponent: i8) -> (r: Option<DecimalParts>)
    requires
        !mantissa_panics(raw, exponent),
    ensures
        r == mantissa_decimal(raw, exponent),
        r matches Some(d) ==> d.wf(),
{
    if raw < 0 {
        return None;
    }
    if exponent < 0 {
        let scale: u32 = (-(exponent as i32)) as u32;
        return Some(DecimalParts { negative: false, mantissa: raw as u128, scale });
    }
    let factor = match checked_pow10_i64(exponent as u32) {
        Some(f) => f,
        None => {
            return None;
        },
    };
    let a = DecimalParts { negative: false, mantissa: raw as u128, scale: 0 };
    let b = DecimalParts { negative: false, mantissa: factor as u128, scale: 0 };
    checked_product(a, b)
}

/// The level of a frame entry: price and quantity mantissas with the
/// frame's exponents, scaled as every feed scales.
pub open spec fn sbe_level(price_raw: i64, qty_raw: i64, price_exp: i8, qty_exp: i8) -> Option<BookLevel> {
    match (mantissa_decimal(price_raw, price_exp), mantissa_decimal(qty_raw, qty_exp)) {
        (Some(p), Some(q)) => level_from(p, q),
        _ => None,
    }
}

/// Reading the entry panics: a decimal cannot be built, or scaling
/// overflows.
pub open spec fn sbe_level_panics(price_raw: i64, qty_raw: i64, price_exp: i8, qty_exp: i8) -> bool {
    mantissa_panics(price_raw, price_exp) || match mantissa_decimal(price_raw, price_exp) {
        Some(p) => mantissa_panics(qty_raw, qty_exp) || match mantissa_decimal(qty_raw, qty_exp) {
            Some(q) => scaling_overflows(p, q),
            None => false,
        },
        None => false,
    }
}

/// The level of a frame entry (`parse_level`).
pub fn parse_level(price_raw: i64, qty_raw: i64, price_exp: i8, qty_exp: i8) -> (r: Option<BookLevel>)
    requires
        !sbe_level_panics(price_raw, qty_raw, price_exp, qty_exp),
    ensures
        r == sbe_level(price_raw, qty_raw, price_exp, qty_exp),
{
    let p = match decimal_from_mantissa(price_raw, price_exp) {
        Some(p) => p,
        None => {
            return None;
        },
    };
    let q = match decimal_from_mantissa(qty_raw, qty_exp) {
        Some(q) => q,
        None => {
            return None;
        },
    };
    scaled_level(p, q)
}

/// Whether reading the entry stays clear of a panic.
pub fn level_readable(price_raw: i64, qty_raw: i64, price_exp: i8, qty_exp: i8) -> (r: bool)
    ensures
        r == !sbe_level_panics(price_raw, qty_raw, price_exp, qty_exp),
{
    if price_raw >= 0 && price_exp < -28 {
        return false;
    }
    match decimal_from_mantissa(price_raw, price_exp) {
        None => true,
        Some(p) => {
            if qty_raw >= 0 && qty_exp < -28 {
                return false;
            }
            match decimal_from_mantissa(qty_raw, qty_exp) {
                None => true,
                Some(q) => scaling_fits(p, q),
            }
        },
    }
}

/// The levels of frame entries, in order, those without a level left out.
pub open spec fn sbe_levels(entries: Seq<(i64, i64)>, price_exp: i8, qty_exp: i8) -> Seq<BookLevel>
    decreases entries.len(),
{
    if entries.len() == 0 {
        Seq::empty()
    } else {
        let prev = sbe_levels(entries.drop_last(), price_exp, qty_exp);
        match sbe_level(entries.last().0, entries.last().1, price_exp, qty_exp) {
            Some(l) => prev.push(l),
            None => prev,
        }
    }
}

/// Reading the entry `e` panics.
pub open spec fn entry_panics(e: (i64, i64), price_exp: i8, qty_exp: i8) -> bool {
    sbe_level_panics(e.0, e.1, price_exp, qty_exp)
}

/// Reading some entry panics.
pub open spec fn entries_panic(entries: Seq<(i64, i64)>, price_exp: i8, qty_exp: i8) -> bool {
    exists|i: int| 0 <= i < entries.len() && #[trigger] entry_panics(entries[i], price_exp, qty_exp)
}

/// The levels of frame entries.
fn frame_levels(entries: &Vec<(i64, i64)>, price_exp: i8, qty_exp: i8) -> (r: Vec<BookLevel>)
    requires
        !entries_panic(entries@, price_exp, qty_exp),
    ensures
        r@ == sbe_levels(entries@, price_exp, qty_exp),
{
    let mut out: Vec<BookLevel> = Vec::with_capacity(entries.len());
    let mut i: usize = 0;
    while i < entries.len()
        invariant
            i <= entries.len(),
            !entries_panic(entries@, price_exp, qty_exp),
            out@ == sbe_levels(entries@.take(i as int), price_exp, qty_exp),
        decreases entries.len() - i,
    {
        assert(!entry_panics(entries@[i as int], price_exp, qty_exp));
        let (price, qty) = entries[i];
        match parse_level(price, qty, price_exp, qty_exp) {
            Some(l) => out.push(l),
            None => {},
        }
        assert(entries@.take(i + 1).drop_last() =~= entries@.take(i as int));
        i = i + 1;
    }
    assert(entries@.take(entries.len() as int) =~= entries@);
    out
}

/// Whether no entry panics when read.
fn entries_readable(entries: &Vec<(i64, i64)>, price_exp: i8, qty_exp: i8) -> (r: bool)
    ensures
        r == !entries_panic(entries@, price_exp, qty_exp),
{
    let mut i: usize = 0;
    while i < entries.len()
        invariant
            i <= entries.len(),
            forall|j: int| 0 <= j < i ==> !#[trigger] entry_panics(entries@[j], price_exp, qty_exp),
        decreases entries.len() - i,
    {
        let (price, qty) = entries[i];
        if !level_readable(price, qty, price_exp, qty_exp) {
            assert(entry_panics(entries@[i as int], price_exp, qty_exp));
            return false;
        }
        i = i + 1;
    }
    true
}

/// The symbol of a frame: its bytes as UTF-8 text (`UNKNOWN` if they are
/// not), in ASCII upper case.
pub open spec fn frame_symbol(bytes: Seq<u8>) -> Seq<char> {
    upper_of(if valid_utf8(bytes) { decode_utf8(bytes) } else { "UNKNOWN"@ })
}

/// The symbol of a frame.
fn symbol_of(bytes: &Vec<u8>) -> (r: String)
    ensures
        r@ == frame_symbol(bytes@),
{
    let text: &str = match str_from_utf8(bytes.as_slice()) {
        Some(t) => t,
        None => "UNKNOWN",
    };
    to_ascii_uppercase(text)
}

/// Reading the levels of the depth event in `msg` panics.
pub open spec fn depth_panics(msg: Seq<u8>, is_diff: bool) -> bool {
    match depth_of(msg, is_diff) {
        Some((f, bids, asks, _)) => entries_panic(bids, f.price_exponent, f.qty_exponent) || entries_panic(
            asks,
            f.price_exponent,
            f.qty_exponent,
        ),
        None => false,
    }
}

/// What a diff frame does: a frame that ends early is an error and changes
/// nothing; otherwise the symbol's state moves as `diff_outcome` says, and a
/// published diff becomes a non-snapshot event with the resolved sequence
/// ids.
pub open spec fn diff_effect(
    pre: Map<Seq<char>, BinanceSyncState>,
    msg: Seq<u8>,
    post: Map<Seq<char>, BinanceSyncState>,
    r: Result<Option<NormalizedBookEvent>, ConnectorError>,
) -> bool {
    match depth_of(msg, true) {
        None => r matches Err(ConnectorError::Unknown(m)) && m@ == "truncated depth diff frame"@ && post == pre,
        Some((f, bids, asks, sym)) => {
            let symbol = frame_symbol(sym);
            let out = diff_outcome(state_of(pre, symbol), f.first_update_id, f.last_update_id);
            &&& post == (match out.1 {
                Some(st) => pre.insert(symbol, st),
                None => pre,
            })
            &&& match out.0 {
                None => r matches Ok(None),
                Some((seq_id, prev_seq_id)) => r matches Ok(Some(e)) && is_event(
                    e,
                    "binance"@,
                    symbol,
                    f.event_time,
                    seq_id,
                    prev_seq_id,
                    false,
                    sbe_levels(bids, f.price_exponent, f.qty_exponent),
                    sbe_levels(asks, f.price_exponent, f.qty_exponent),
                ),
            }
        },
    }
}

/// What a snapshot frame does: a frame that ends early is an error and
/// changes nothing; otherwise the symbol awaits a diff bridging the
/// snapshot's update id, and the event is a snapshot whose sequence ids are
/// both that id.
pub open spec fn snapshot_effect(
    pre: Map<Seq<char>, BinanceSyncState>,
    msg: Seq<u8>,
    post: Map<Seq<char>, BinanceSyncState>,
    r: Result<Option<NormalizedBookEvent>, ConnectorError>,
) -> bool {
    match depth_of(msg, false) {
        None => r matches Err(ConnectorError::Unknown(m)) && m@ == "truncated depth snapshot frame"@ && post == pre,
        Some((f, bids, asks, sym)) => {
            let symbol = frame_symbol(sym);
            &&& post == pre.insert(symbol, BinanceSyncState::AwaitingBridge { snapshot_last_update_id: f.last_update_id })
            &&& r matches Ok(Some(e)) && is_event(
                e,
                "binance"@,
                symbol,
                f.event_time,
                f.last_update_id,
                f.last_update_id,
                true,
                sbe_levels(bids, f.price_exponent, f.qty_exponent),
                sbe_levels(asks, f.price_exponent, f.qty_exponent),
            )
        },
    }
}

/// Decodes a depth diff frame, resolves its sequence against the symbol's
/// state and builds the event when the diff is published.
pub fn parse_diff_event(msg: &[u8], sync_state: &mut StringHashMap<BinanceSyncState>) -> (r: Result<Option<NormalizedBookEvent>, ConnectorError>)
    requires
        !depth_panics(msg@, true),
    ensures
        diff_effect(old(sync_state)@, msg@, final(sync_state)@, r),
{
    let frame = match decode_depth(msg, true) {
        Some(f) => f,
        None => {
            return Err(ConnectorError::Unknown("truncated depth diff frame".to_owned()));
        },
    };
    let price_exp = frame.fields.price_exponent;
    let qty_exp = frame.fields.qty_exponent;
    let bids = frame_levels(&frame.bids, price_exp, qty_exp);
    let asks = frame_levels(&frame.asks, price_exp, qty_exp);
    let symbol = symbol_of(&frame.symbol);
    let resolved = resolve_diff_sequence(
        sync_state,
        symbol.as_str(),
        frame.fields.first_update_id,
        frame.fields.last_update_id,
    );
    let (seq_id, prev_seq_id) = match resolved {
        Some(p) => p,
        None => {
            return Ok(None);
        },
    };
    Ok(Some(NormalizedBookEvent {
        exchange: "binance".to_owned(),
        symbol,
        timestamp: frame.fields.event_time,
        seq_id,
        prev_seq_id,
        is_snapshot: false,
        price_scale: DEFAULT_PRICE_SCALE,
        size_scale: DEFAULT_QTY_SCALE,
        bids,
        asks,
    }))
}

/// Decodes a depth snapshot frame, records the snapshot for its symbol and
/// builds the snapshot event.
pub fn parse_snapshot_event(msg: &[u8], sync_state: &mut StringHashMap<BinanceSyncState>) -> (r: Result<NormalizedBookEvent, ConnectorError>)
    requires
        !depth_panics(msg@, false),
    ensures
        snapshot_effect(
            old(sync_state)@,
            msg@,
            final(sync_state)@,
            match r {
                Ok(e) => Ok(Some(e)),
                Err(e) => Err(e),
            },
        ),
{
    let frame = match decode_depth(msg, false) {
        Some(f) => f,
        None => {
            return Err(ConnectorError::Unknown("truncated depth snapshot frame".to_owned()));
        },
    };
    let price_exp = frame.fields.price_exponent;
    let qty_exp = frame.fields.qty_exponent;
    let bids = frame_levels(&frame.bids, price_exp, qty_exp);
    let asks = frame_levels(&frame.asks, price_exp, qty_exp);
    let symbol = symbol_of(&frame.symbol);
    let update_id = frame.fields.last_update_id;
    set_snapshot_state(sync_state, symbol.as_str(), update_id);
    Ok(NormalizedBookEvent {
        exchange: "binance".to_owned(),
        symbol,
        timestamp: frame.fields.event_time,
        seq_id: update_id,
        prev_seq_id: update_id,
        is_snapshot: true,
        price_scale: DEFAULT_PRICE_SCALE,
        size_scale: DEFAULT_QTY_SCALE,
        bids,
        asks,
    })
}

/// The template id of a frame the adapter decodes: at least a message
/// header, not JSON text, and Binance's schema.
pub open spec fn frame_template(msg: Seq<u8>) -> Option<int> {
    if msg.len() < SBE_HEADER_LEN || msg[0] == 0x7bu8 || msg[0] == 0x5bu8 || u16_le(msg, 4) != SBE_SCHEMA_ID {
        None
    } else {
        Some(u16_le(msg, 2))
    }
}

/// What becomes of one REST level: its level, or which check fails.
pub enum RestLevel {
    Level(BookLevel),
    BadPrice,
    BadQty,
    PriceOverflow,
    QtyOverflow,
}

/// What becomes of the REST level (`price`, `qty`) when scaling does not
/// overflow: both must parse, the scaled price must fit a `u32` and the
/// scaled quantity a `u64`.
pub open spec fn rest_level(price: Seq<char>, qty: Seq<char>) -> RestLevel {
    match parsed_decimal(price) {
        None => RestLevel::BadPrice,
        Some(p) => match parsed_decimal(qty) {
            None => RestLevel::BadQty,
            Some(q) => match (
                scaled_rounded(p, DEFAULT_PRICE_SCALE as nat),
                scaled_rounded(q, DEFAULT_QTY_SCALE as nat),
            ) {
                (Some(a), Some(b)) => match u32_value(a) {
                    None => RestLevel::PriceOverflow,
                    Some(x) => match u64_value(b) {
                        None => RestLevel::QtyOverflow,
                        Some(y) => RestLevel::Level(BookLevel { price: crate::levels::Price(x), size: crate::levels::Size(y) }),
                    },
                },
                _ => RestLevel::PriceOverflow,
            },
        },
    }
}

/// The levels of a REST snapshot side, or the index of the first level that
/// fails.
pub open spec fn rest_levels_of(levels: Seq<(String, String)>) -> Result<Seq<BookLevel>, int>
    decreases levels.len(),
{
    if levels.len() == 0 {
        Ok(Seq::empty())
    } else {
        match rest_levels_of(levels.drop_last()) {
            Err(i) => Err(i),
            Ok(s) => match rest_level(levels.last().0@, levels.last().1@) {
                RestLevel::Level(l) => Ok(s.push(l)),
                _ => Err(levels.len() - 1),
            },
        }
    }
}

/// Parsing reaches a level whose scaling overflows.
pub open spec fn rest_levels_panic(levels: Seq<(String, String)>) -> bool {
    exists|i: int|
        0 <= i < levels.len() && rest_levels_of(levels.take(i)) is Ok && #[trigger] level_panics(levels[i].0@, levels[i].1@)
}

/// `e` is the error reported for the failing level `l`.
pub open spec fn rest_error(l: (String, String), e: ConnectorError) -> bool {
    match rest_level(l.0@, l.1@) {
        RestLevel::BadPrice => e matches ConnectorError::ParseError(m) && exists|t: Seq<char>|
            m@ == "invalid binance price "@ + l.0@ + ": "@ + t,
        RestLevel::BadQty => e matches ConnectorError::ParseError(m) && exists|t: Seq<char>|
            m@ == "invalid binance qty "@ + l.1@ + ": "@ + t,
        RestLevel::PriceOverflow => e matches ConnectorError::ParseError(m) && m@ == "scaled price overflow for "@ + l.0@,
        RestLevel::QtyOverflow => e matches ConnectorError::ParseError(m) && m@ == "scaled qty overflow for "@ + l.1@,
        RestLevel::Level(_) => false,
    }
}

/// `prefix` followed by `a` and `b`.
fn joined3(prefix: &str, a: &str, b: &str) -> (r: String)
    ensures
        r@ == prefix@ + a@ + b@,
{
    let mut m = prefix.to_owned();
    m.append(a);
    m.append(b);
    m
}

/// The levels of a REST depth snapshot side, each price and quantity a
/// decimal string; the first level that fails ends it with an error.
pub fn parse_rest_levels(levels: &[(String, String)]) -> (r: Result<Vec<BookLevel>, ConnectorError>)
    requires
        !rest_levels_panic(levels@),
    ensures
        match (r, rest_levels_of(levels@)) {
            (Ok(v), Ok(s)) => v@ == s,
            (Err(e), Err(i)) => 0 <= i < levels@.len() && rest_error(levels@[i], e),
            _ => false,
        },
{
    let mut out: Vec<BookLevel> = Vec::with_capacity(levels.len());
    let mut i: usize = 0;
    while i < levels.len()
        invariant
            i <= levels.len(),
            !rest_levels_panic(levels@),
            rest_levels_of(levels@.take(i as int)) == Ok::<Seq<BookLevel>, int>(out@),
        decreases levels.len() - i,
    {
        let ghost l = levels@[i as int];
        assert(levels@.take(i + 1).drop_last() =~= levels@.take(i as int));
        assert(levels@.take(i + 1).last() == l);
        let price_raw = &levels[i].0;
        let qty_raw = &levels[i].1;
        let price = match parse_decimal(price_raw.as_str()) {
            Ok(p) => p,
            Err(e) => {
                let t = decimal_error_text(&e);
                let mut m = joined3("invalid binance price ", price_raw.as_str(), ": ");
                m.append(t.as_str());
                assert(m@ == "invalid binance price "@ + l.0@ + ": "@ + t@);
                proof {
                    lemma_rest_error_at(levels@, i as int);
                }
                return Err(ConnectorError::ParseError(m));
            },
        };
        let qty = match parse_decimal(qty_raw.as_str()) {
            Ok(q) => q,
            Err(e) => {
                let t = decimal_error_text(&e);
                let mut m = joined3("invalid binance qty ", qty_raw.as_str(), ": ");
                m.append(t.as_str());
                assert(m@ == "invalid binance qty "@ + l.1@ + ": "@ + t@);
                proof {
                    lemma_rest_error_at(levels@, i as int);
                }
                return Err(ConnectorError::ParseError(m));
            },
        };
        assert(!level_panics(levels@[i as int].0@, levels@[i as int].1@));
        let scaled_price = scale_and_round(price, DEFAULT_PRICE_SCALE as u64);
        let scaled_size = scale_and_round(qty, DEFAULT_QTY_SCALE);
        let p = match decimal_to_u32(scaled_price) {
            Some(v) => v,
            None => {
                let mut m = "scaled price overflow for ".to_owned();
                m.append(price_raw.as_str());
                proof {
                    lemma_rest_error_at(levels@, i as int);
                }
                return Err(ConnectorError::ParseError(m));
            },
        };
        let q = match decimal_to_u64(scaled_size) {
            Some(v) => v,
            None => {
                let mut m = "scaled qty overflow for ".to_owned();
                m.append(qty_raw.as_str());
                proof {
                    lemma_rest_error_at(levels@, i as int);
                }
                return Err(ConnectorError::ParseError(m));
            },
        };
        out.push(BookLevel { price: crate::levels::Price(p), size: crate::levels::Size(q) });
        i = i + 1;
    }
    assert(levels@.take(levels.len() as int) =~= levels@);
    Ok(out)
}

/// A level that fails right after a prefix that parses is where the whole
/// side fails.
proof fn lemma_rest_error_at(levels: Seq<(String, String)>, i: int)
    requires
        0 <= i < levels.len(),
        rest_levels_of(levels.take(i)) is Ok,
        !(rest_level(levels[i].0@, levels[i].1@) is Level),
    ensures
        rest_levels_of(levels) == Err::<Seq<BookLevel>, int>(i),
    decreases levels.len() - i,
{
    if i + 1 == levels.len() {
        assert(levels.drop_last() =~= levels.take(i));
    } else {
        assert(levels.drop_last().take(i) =~= levels.take(i));
        lemma_rest_error_at(levels.drop_last(), i);
    }
}

/// Whether no level reached while parsing overflows when scaled.
pub fn rest_levels_scalable(levels: &[(String, String)]) -> (r: bool)
    ensures
        r == !rest_levels_panic(levels@),
{
    let mut i: usize = 0;
    while i < levels.len()
        invariant
            i <= levels.len(),
            rest_levels_of(levels@.take(i as int)) is Ok,
            forall|j: int| 0 <= j < i ==> !#[trigger] level_panics(levels@[j].0@, levels@[j].1@),
        decreases levels.len() - i,
    {
        assert(levels@.take(i + 1).drop_last() =~= levels@.take(i as int));
        if !crate::decimal::level_scalable(levels[i].0.as_str(), levels[i].1.as_str()) {
            assert(levels@.take(i as int) =~= levels@.take(i as int));
            return false;
        }
        let ok = match (parse_decimal(levels[i].0.as_str()), parse_decimal(levels[i].1.as_str())) {
            (Ok(p), Ok(q)) => {
                let sp = scale_and_round(p, DEFAULT_PRICE_SCALE as u64);
                let sq = scale_and_round(q, DEFAULT_QTY_SCALE);
                decimal_to_u32(sp).is_some() && decimal_to_u64(sq).is_some()
            },
            _ => false,
        };
        if !ok {
            proof {
                assert forall|j: int| i < j < levels@.len() implies !(rest_levels_of(levels@.take(j)) is Ok) by {
                    lemma_rest_prefix_fails(levels@, i as int, j);
                }
            }
            return true;
        }
        i = i + 1;
    }
    true
}

/// Once a level fails, no longer prefix parses.
proof fn lemma_rest_prefix_fails(levels: Seq<(String, String)>, i: int, j: int)
    requires
        0 <= i < j <= levels.len(),
        rest_levels_of(levels.take(i)) is Ok,
        !(rest_level(levels[i].0@, levels[i].1@) is Level),
    ensures
        !(rest_levels_of(levels.take(j)) is Ok),
    decreases j - i,
{
    if j == i + 1 {
        assert(levels.take(j).drop_last() =~= levels.take(i));
    } else {
        lemma_rest_prefix_fails(levels, i, j - 1);
        assert(levels.take(j).drop_last() =~= levels.take(j - 1));
    }
}

/// Whether every level of a REST side parses and fits (where none reached
/// overflows when scaled).
fn rest_levels_ok(levels: &[(String, String)]) -> (r: bool)
    requires
        !rest_levels_panic(levels@),
    ensures
        r == rest_levels_of(levels@) is Ok,
{
    parse_rest_levels(levels).is_ok()
}

/// The Binance SBE depth feed, with each symbol's place in the
/// snapshot/diff protocol.
pub struct BinanceConnectorAdapter {
    pub sync_state: StringHashMap<BinanceSyncState>,
}

impl Default for BinanceConnectorAdapter {
    fn default() -> (r: Self)
        ensures
            r.sync_state@ == Map::<Seq<char>, BinanceSyncState>::empty(),
    {
        BinanceConnectorAdapter { sync_state: StringHashMap::new() }
    }
}

impl BinanceConnectorAdapter {
    /// The feed's name.
    pub fn get_source_name(&self) -> (r: String)
        ensures
            r@ == "Binance"@,
    {
        "Binance".to_owned()
    }

    /// The streams to (un)subscribe: each symbol in ASCII lower case, then
    /// `@depth`.
    pub fn subscription_params(&self, instruments: &[String]) -> (r: Vec<String>)
        ensures
            r.len() == instruments.len(),
            forall|i: int| 0 <= i < r.len() ==> #[trigger] r@[i]@ == lower_of(instruments@[i]@) + "@depth"@,
    {
        let mut out: Vec<String> = Vec::with_capacity(instruments.len());
        let mut i: usize = 0;
        while i < instruments.len()
            invariant
                i <= instruments.len(),
                out.len() == i,
                forall|j: int| 0 <= j < i ==> #[trigger] out@[j]@ == lower_of(instruments@[j]@) + "@depth"@,
            decreases instruments.len() - i,
        {
            let mut param = to_ascii_lowercase(instruments[i].as_str());
            param.append("@depth");
            out.push(param);
            i = i + 1;
        }
        out
    }

    /// The subscription method: `UNSUBSCRIBE` or `SUBSCRIBE`.
    pub fn subscription_method(&self, is_unsub: bool) -> (r: &'static str)
        ensures
            r@ == (if is_unsub { "UNSUBSCRIBE"@ } else { "SUBSCRIBE"@ }),
    {
        if is_unsub {
            "UNSUBSCRIBE"
        } else {
            "SUBSCRIBE"
        }
    }

    /// The symbol a REST snapshot is asked for: the instrument in ASCII
    /// upper case.
    pub fn bootstrap_symbol(&self, instrument: &str) -> (r: String)
        ensures
            r@ == upper_of(instrument@),
    {
        to_ascii_uppercase(instrument)
    }

    /// The snapshot event of a REST depth snapshot for `instrument` with
    /// update id `last_update_id`, taken at `timestamp`; the symbol then
    /// awaits a diff bridging that id. A level that fails is an error and
    /// records nothing.
    pub fn snapshot_from_rest(
        &mut self,
        instrument: &str,
        last_update_id: i64,
        bids: &[(String, String)],
        asks: &[(String, String)],
        timestamp: i64,
    ) -> (r: Result<NormalizedBookEvent, ConnectorError>)
        requires
            !rest_levels_panic(bids@),
            rest_levels_of(bids@) is Ok ==> !rest_levels_panic(asks@),
        ensures
            match (rest_levels_of(bids@), rest_levels_of(asks@)) {
                (Ok(b), Ok(a)) => {
                    &&& final(self).sync_state@ == old(self).sync_state@.insert(
                        upper_of(instrument@),
                        BinanceSyncState::AwaitingBridge { snapshot_last_update_id: last_update_id },
                    )
                    &&& r matches Ok(e) && is_event(e, "binance"@, upper_of(instrument@), timestamp, last_update_id, last_update_id, true, b, a)
                },
                (Err(i), _) => {
                    &&& final(self).sync_state@ == old(self).sync_state@
                    &&& 0 <= i < bids@.len()
                    &&& r matches Err(e) && rest_error(bids@[i], e)
                },
                (Ok(_), Err(i)) => {
                    &&& final(self).sync_state@ == old(self).sync_state@
                    &&& 0 <= i < asks@.len()
                    &&& r matches Err(e) && rest_error(asks@[i], e)
                },
            },
    {
        let symbol = to_ascii_uppercase(instrument);
        let bid_levels = match parse_rest_levels(bids) {
            Ok(v) => v,
            Err(e) => {
                return Err(e);
            },
        };
        let ask_levels = match parse_rest_levels(asks) {
            Ok(v) => v,
            Err(e) => {
                return Err(e);
            },
        };
        set_snapshot_state(&mut self.sync_state, symbol.as_str(), last_update_id);
        Ok(NormalizedBookEvent {
            exchange: "binance".to_owned(),
            symbol,
            timestamp,
            seq_id: last_update_id,
            prev_seq_id: last_update_id,
            is_snapshot: true,
            price_scale: DEFAULT_PRICE_SCALE,
            size_scale: DEFAULT_QTY_SCALE,
            bids: bid_levels,
            asks: ask_levels,
        })
    }

    /// `snapshot_from_rest`, where no level reached overflows when scaled;
    /// otherwise an error that records nothing.
    pub fn bootstrap_event(
        &mut self,
        instrument: &str,
        last_update_id: i64,
        bids: &[(String, String)],
        asks: &[(String, String)],
        timestamp: i64,
    ) -> (r: Result<NormalizedBookEvent, ConnectorError>)
        ensures
            rest_levels_panic(bids@) || (rest_levels_of(bids@) is Ok && rest_levels_panic(asks@)) ==> {
                &&& final(self).sync_state@ == old(self).sync_state@
                &&& r matches Err(ConnectorError::ParseError(m)) && m@ == "scaled level overflow"@
            },
            !(rest_levels_panic(bids@) || (rest_levels_of(bids@) is Ok && rest_levels_panic(asks@))) ==> match (
                rest_levels_of(bids@),
                rest_levels_of(asks@),
            ) {
                (Ok(b), Ok(a)) => {
                    &&& final(self).sync_state@ == old(self).sync_state@.insert(
                        upper_of(instrument@),
                        BinanceSyncState::AwaitingBridge { snapshot_last_update_id: last_update_id },
                    )
                    &&& r matches Ok(e) && is_event(e, "binance"@, upper_of(instrument@), timestamp, last_update_id, last_update_id, true, b, a)
                },
                (Err(i), _) => {
                    &&& final(self).sync_state@ == old(self).sync_state@
                    &&& 0 <= i < bids@.len()
                    &&& r matches Err(e) && rest_error(bids@[i], e)
                },
                (Ok(_), Err(i)) => {
                    &&& final(self).sync_state@ == old(self).sync_state@
                    &&& 0 <= i < asks@.len()
                    &&& r matches Err(e) && rest_error(asks@[i], e)
                },
            },
    {
        if !rest_levels_scalable(bids) {
            return Err(ConnectorError::ParseError("scaled level overflow".to_owned()));
        }
        let bids_parse = rest_levels_ok(bids);
        if bids_parse && !rest_levels_scalable(asks) {
            return Err(ConnectorError::ParseError("scaled level overflow".to_owned()));
        }
        self.snapshot_from_rest(instrument, last_update_id, bids, asks, timestamp)
    }

    /// Decodes a stream frame: frames shorter than a header, JSON text and
    /// other schemas or templates are ignored; diff and snapshot frames
    /// are decoded against the symbols' states. A frame whose levels cannot
    /// be read without overflow is an error and changes nothing.
    pub fn parse_market_event(&mut self, msg: &[u8]) -> (r: Result<Option<NormalizedBookEvent>, ConnectorError>)
        ensures
            match frame_template(msg@) {
                Some(t) => if t == DEPTH_DIFF_TEMPLATE_ID as int {
                    if depth_panics(msg@, true) {
                        r matches Err(ConnectorError::ParseError(m)) && m@ == "scaled level overflow"@
                            && final(self).sync_state@ == old(self).sync_state@
                    } else {
                        diff_effect(old(self).sync_state@, msg@, final(self).sync_state@, r)
                    }
                } else if t == DEPTH_SNAPSHOT_TEMPLATE_ID as int {
                    if depth_panics(msg@, false) {
                        r matches Err(ConnectorError::ParseError(m)) && m@ == "scaled level overflow"@
                            && final(self).sync_state@ == old(self).sync_state@
                    } else {
                        snapshot_effect(old(self).sync_state@, msg@, final(self).sync_state@, r)
                    }
                } else {
                    r matches Ok(None) && final(self).sync_state@ == old(self).sync_state@
                },
                None => r matches Ok(None) && final(self).sync_state@ == old(self).sync_state@,
            },
    {
        if msg.len() < SBE_HEADER_LEN {
            return Ok(None);
        }
        if msg[0] == 0x7bu8 || msg[0] == 0x5bu8 {
            return Ok(None);
        }
        if read_u16(msg, 4) != SBE_SCHEMA_ID {
            return Ok(None);
        }
        let template = read_u16(msg, 2);
        if template == DEPTH_DIFF_TEMPLATE_ID {
            if !frame_readable(msg, true) {
                return Err(ConnectorError::ParseError("scaled level overflow".to_owned()));
            }
            parse_diff_event(msg, &mut self.sync_state)
        } else if template == DEPTH_SNAPSHOT_TEMPLATE_ID {
            if !frame_readable(msg, false) {
                return Err(ConnectorError::ParseError("scaled level overflow".to_owned()));
            }
            match parse_snapshot_event(msg, &mut self.sync_state) {
                Ok(e) => Ok(Some(e)),
                Err(e) => Err(e),
            }
        } else {
            Ok(None)
        }
    }
}

/// Whether the levels of the depth event in `msg` can be read without a
/// panic.
pub fn frame_readable(msg: &[u8], is_diff: bool) -> (r: bool)
    ensures
        r == !depth_panics(msg@, is_diff),
{
    match decode_depth(msg, is_diff) {
        None => true,
        Some(frame) => {
            entries_readable(&frame.bids, frame.fields.price_exponent, frame.fields.qty_exponent)
                && entries_readable(&frame.asks, frame.fields.price_exponent, frame.fields.qty_exponent)
        },
    }
}

} // verus!

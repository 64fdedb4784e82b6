//! Properties that span several operations: the Binance snapshot/diff
//! protocol, how its sequence ids meet the book worker's gap check, how
//! the worker treats updates around a gap, and how the indexer keeps books
//! of different exchanges apart.

use vstd::prelude::*;
use crate::binance::{diff_outcome, sat_add, state_of, BinanceSyncState};
use crate::models::{BookState, NormalizedBookEvent};
use crate::worker::{event_case, next_cursor, EventCase, SymbolCursor};
use crate::decimal::DecimalParts;
use crate::okx_book::{checksum_parts, entry_texts};
use crate::indexer::{symbol_key_of, OrderBookIndexer, SymbolId};

verus! {

/// After a snapshot with update id `s` is recorded for a symbol, the first
/// diff that covers `s + 1` is published as `(last, s)` and synchronises
/// the symbol at its last update id.
pub proof fn law_snapshot_then_bridging_diff(
    m: Map<Seq<char>, BinanceSyncState>,
    symbol: Seq<char>,
    s: i64,
    first: i64,
    last: i64,
)
    requires
        s < last,
        first <= sat_add(s, 1) <= last,
    ensures
        diff_outcome(
            state_of(m.insert(symbol, BinanceSyncState::AwaitingBridge { snapshot_last_update_id: s }), symbol),
            first,
            last,
        ) == (Some((last, s)), Some(BinanceSyncState::Synced { last_update_id: last })),
{
}

/// A diff for a symbol without a recorded snapshot is never published and
/// records nothing.
pub proof fn law_diff_without_snapshot_is_dropped(m: Map<Seq<char>, BinanceSyncState>, symbol: Seq<char>, first: i64, last: i64)
    requires
        !m.contains_key(symbol),
    ensures
        diff_outcome(state_of(m, symbol), first, last) == (None::<(i64, i64)>, None::<BinanceSyncState>),
{
}

/// A diff whose last update id is not past the symbol's recorded id (the
/// snapshot's, or the last published) is dropped and leaves the state as it
/// was.
pub proof fn law_stale_diff_is_dropped(state: BinanceSyncState, first: i64, last: i64)
    requires
        last <= (match state {
            BinanceSyncState::AwaitingBridge { snapshot_last_update_id } => snapshot_last_update_id,
            BinanceSyncState::Synced { last_update_id } => last_update_id,
        }),
    ensures
        diff_outcome(Some(state), first, last) == (None::<(i64, i64)>, Some(state)),
{
}

/// While awaiting the bridge, a diff that starts after `s + 1` is dropped
/// and the symbol keeps waiting.
pub proof fn law_non_bridging_diff_keeps_waiting(s: i64, first: i64, last: i64)
    requires
        s < last,
        first > sat_add(s, 1),
    ensures
        diff_outcome(Some(BinanceSyncState::AwaitingBridge { snapshot_last_update_id: s }), first, last) == (
            None::<(i64, i64)>,
            Some(BinanceSyncState::AwaitingBridge { snapshot_last_update_id: s }),
        ),
{
}

/// Once synchronised at `l`, every newer diff is published with its last
/// update id, which becomes the recorded id; its predecessor is `l` exactly
/// when the diff starts no later than `l + 1`.
pub proof fn law_synced_diffs_advance(l: i64, first: i64, last: i64)
    requires
        l < last,
    ensures
        diff_outcome(Some(BinanceSyncState::Synced { last_update_id: l }), first, last).1 == Some(
            BinanceSyncState::Synced { last_update_id: last },
        ),
        diff_outcome(Some(BinanceSyncState::Synced { last_update_id: l }), first, last).0 matches Some((seq, prev))
            && seq == last && seq > l && (prev == l <==> first <= sat_add(l, 1)),
{
}

/// A Binance diff published against `Synced { l }` and handed to a worker
/// whose cursor is synced at `l` is applied when it is contiguous and
/// reported as a gap when updates were missed.
pub proof fn law_binance_gap_reaches_worker(cur: SymbolCursor, event: NormalizedBookEvent, first: i64, last: i64)
    requires
        cur.state == BookState::Synced,
        cur.last_seq_id >= 0,
        cur.last_seq_id < last,
        !event.is_snapshot,
        diff_outcome(Some(BinanceSyncState::Synced { last_update_id: cur.last_seq_id }), first, last).0 == Some(
            (event.seq_id, event.prev_seq_id),
        ),
    ensures
        event_case(cur, event) is Applied <==> first <= sat_add(cur.last_seq_id, 1),
        event_case(cur, event) is Gap <==> first > sat_add(cur.last_seq_id, 1),
{
}

/// A gap leaves the symbol awaiting a snapshot; from there updates are
/// ignored until a snapshot synchronises it again at the snapshot's
/// sequence id.
pub proof fn law_gap_then_snapshot_resyncs(
    cur: SymbolCursor,
    gap_event: NormalizedBookEvent,
    update: NormalizedBookEvent,
    snapshot: NormalizedBookEvent,
)
    requires
        event_case(cur, gap_event) is Gap,
        !update.is_snapshot,
        snapshot.is_snapshot,
    ensures
        next_cursor(cur, gap_event).state == BookState::AwaitingSnapshot,
        event_case(next_cursor(cur, gap_event), update) is Ignored,
        next_cursor(next_cursor(cur, gap_event), update) == next_cursor(cur, gap_event),
        next_cursor(next_cursor(cur, gap_event), snapshot).state == BookState::Synced,
        next_cursor(next_cursor(cur, gap_event), snapshot).last_seq_id == snapshot.seq_id,
{
}

/// Contiguous updates keep a symbol synchronised, each advancing its last
/// sequence id to the update's own.
pub proof fn law_contiguous_update_applies(cur: SymbolCursor, event: NormalizedBookEvent)
    requires
        cur.state == BookState::Synced,
        !event.is_snapshot,
        event.prev_seq_id == cur.last_seq_id,
    ensures
        event_case(cur, event) is Applied,
        next_cursor(cur, event).state == BookState::Synced,
        next_cursor(cur, event).last_seq_id == event.seq_id,
{
}

/// The OKX checksum string reads only the best `n` levels of each side:
/// sides that agree on their best `n` bids (from the highest price) and
/// best `n` asks (from the lowest) give the same parts.
pub proof fn law_checksum_reads_top_levels(
    bk1: Seq<DecimalParts>,
    bv1: Seq<DecimalParts>,
    ak1: Seq<DecimalParts>,
    av1: Seq<DecimalParts>,
    bk2: Seq<DecimalParts>,
    bv2: Seq<DecimalParts>,
    ak2: Seq<DecimalParts>,
    av2: Seq<DecimalParts>,
    n: nat,
)
    requires
        bk1.len() == bv1.len(),
        bk2.len() == bv2.len(),
        ak1.len() == av1.len(),
        ak2.len() == av2.len(),
        bk1.len() < n || bk2.len() < n ==> bk1.len() == bk2.len(),
        ak1.len() < n || ak2.len() < n ==> ak1.len() == ak2.len(),
        forall|k: int|
            0 <= k < n && k < bk1.len() ==> #[trigger] bk1[bk1.len() - 1 - k] == bk2[bk2.len() - 1 - k] && bv1[bk1.len() - 1
                - k] == bv2[bk2.len() - 1 - k],
        forall|k: int| 0 <= k < n && k < ak1.len() ==> #[trigger] ak1[k] == ak2[k] && av1[k] == av2[k],
    ensures
        checksum_parts(bk1, bv1, ak1, av1, n) == checksum_parts(bk2, bv2, ak2, av2, n),
    decreases n,
{
    if n > 0 {
        assert forall|k: int| 0 <= k < n - 1 && k < ak1.len() implies #[trigger] ak1[k] == ak2[k] && av1[k] == av2[k] by {
            assert(ak1[k] == ak2[k]);
        }
        law_checksum_reads_top_levels(bk1, bv1, ak1, av1, bk2, bv2, ak2, av2, (n - 1) as nat);
        let k = n - 1;
        if k < bk1.len() {
            assert(entry_texts(bk1[bk1.len() - 1 - k], bv1[bk1.len() - 1 - k]) == entry_texts(
                bk2[bk2.len() - 1 - k],
                bv2[bk2.len() - 1 - k],
            ));
        }
        if k < ak1.len() {
            assert(entry_texts(ak1[k], av1[k]) == entry_texts(ak2[k], av2[k]));
        }
    }
}

/// A symbol registered with `new_book` on one exchange and then on another
/// gets two different ids: books of the same symbol on different exchanges
/// never collide. (`i0 -> i1 -> i2` are the resolvers before and after the
/// two calls, as `new_book` states them.)
pub proof fn law_new_book_distinct_across_exchanges(
    i0: OrderBookIndexer,
    i1: OrderBookIndexer,
    i2: OrderBookIndexer,
    exchange1: Seq<char>,
    exchange2: Seq<char>,
    symbol: Seq<char>,
    r1: SymbolId,
    r2: SymbolId,
)
    requires
        i2.wf(),
        i1.id_resolver@ == i0.id_resolver@.insert(symbol_key_of(exchange1, symbol), r1),
        i2.id_resolver@ == i1.id_resolver@.insert(symbol_key_of(exchange2, symbol), r2),
        exchange1 != exchange2,
    ensures
        r1 != r2,
{
    let k1 = symbol_key_of(exchange1, symbol);
    let k2 = symbol_key_of(exchange2, symbol);
    if k1 == k2 {
        assert(k1.len() == exchange1.len() + 1 + symbol.len());
        assert(k2.len() == exchange2.len() + 1 + symbol.len());
        assert(exchange1.len() == exchange2.len());
        assert forall|i: int| 0 <= i < exchange1.len() implies exchange1[i] == exchange2[i] by {
            assert(k1[i] == exchange1[i]);
            assert(k2[i] == exchange2[i]);
        }
        assert(exchange1 =~= exchange2);
    }
    assert(i2.id_resolver@.contains_key(k1) && i2.id_resolver@[k1] == r1);
    assert(i2.id_resolver@.contains_key(k2) && i2.id_resolver@[k2] == r2);
}


} // verus!

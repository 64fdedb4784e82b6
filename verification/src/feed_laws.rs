//! Properties of what the feeds and the book worker keep: every decoded
//! level survives normalisation whatever its size, a snapshot replaces the
//! book it lands on, and the OKX checksum covers the top levels of the book
//! as it stands after each delta.

use vstd::prelude::*;
use crate::indexer::level_update;
use crate::levels::BookLevel;
use crate::models::{NormalizedBookEvent, RestartSignal};
use crate::worker::{apply_levels, local_depth_of, OrderBooksIndexerWorker, TickRecord};
use crate::binance::{sbe_level, sbe_levels};
use crate::okx::{okx_event, okx_levels, OkxOrderBookMesssage, OkxOrderLevel};
use crate::bybit::{row_level, rows_levels};
use crate::decimal::{decimal_text, level_of, normalized, DecimalParts};
use crate::dbook::DecimalLevels;
use crate::okx_book::{checksum_of, checksum_of_maps, checksum_parts, crc32_text, join_colon, update_step, AlertSpec, BookData, OkxView};

verus! {

/// Entry `i` of `levels` is the last one at its price.
pub open spec fn last_at_price(levels: Seq<BookLevel>, i: int) -> bool {
    forall|j: int| i < j < levels.len() ==> #[trigger] levels[j].price.0 != levels[i].price.0
}

/// Every level `m` holds is listed in `levels`: the last entry at its price,
/// with the same non-zero size.
pub open spec fn holds_only_listed(levels: Seq<BookLevel>, m: Map<u32, u64>) -> bool {
    forall|p: u32| #[trigger] m.contains_key(p) ==> exists|i: int|
        0 <= i < levels.len() && #[trigger] last_at_price(levels, i) && levels[i].price.0 == p
            && levels[i].size.0 == m[p] && m[p] != 0
}

/// Every price listed in `levels` is held with the size of its last entry,
/// and is absent when that size is zero.
pub open spec fn holds_all_listed(levels: Seq<BookLevel>, m: Map<u32, u64>) -> bool {
    forall|i: int| 0 <= i < levels.len() && #[trigger] last_at_price(levels, i) ==> if levels[i].size.0 == 0 {
        !m.contains_key(levels[i].price.0)
    } else {
        m.contains_key(levels[i].price.0) && m[levels[i].price.0] == levels[i].size.0
    }
}

/// Levels applied in turn to an empty side hold exactly the listed prices
/// whose last entry has a non-zero size.
proof fn lemma_levels_from_empty(levels: Seq<BookLevel>)
    ensures
        holds_only_listed(levels, apply_levels(Map::empty(), levels)),
        holds_all_listed(levels, apply_levels(Map::empty(), levels)),
    decreases levels.len(),
{
    if levels.len() > 0 {
        let l = levels.drop_last();
        let x = levels.last();
        let n = levels.len();
        lemma_levels_from_empty(l);
        let m0 = apply_levels(Map::empty(), l);
        let m = apply_levels(Map::empty(), levels);
        assert(m == level_update(m0, x.price.0, x.size.0));
        assert forall|p: u32| #[trigger] m.contains_key(p) implies exists|i: int|
            0 <= i < levels.len() && #[trigger] last_at_price(levels, i) && levels[i].price.0 == p
                && levels[i].size.0 == m[p] && m[p] != 0 by {
            if p == x.price.0 {
                assert(last_at_price(levels, n - 1));
            } else {
                assert(m0.contains_key(p));
                let i = choose|i: int|
                    0 <= i < l.len() && #[trigger] last_at_price(l, i) && l[i].price.0 == p && l[i].size.0 == m0[p]
                        && m0[p] != 0;
                assert forall|j: int| i < j < levels.len() implies #[trigger] levels[j].price.0 != levels[i].price.0 by {
                    if j < n - 1 {
                        assert(levels[j] == l[j]);
                        assert(l[j].price.0 != l[i].price.0);
                    }
                }
                assert(last_at_price(levels, i));
            }
        }
        assert forall|i: int| 0 <= i < levels.len() && #[trigger] last_at_price(levels, i) implies if levels[i].size.0 == 0 {
            !m.contains_key(levels[i].price.0)
        } else {
            m.contains_key(levels[i].price.0) && m[levels[i].price.0] == levels[i].size.0
        } by {
            if i < n - 1 {
                assert(levels[n - 1].price.0 != levels[i].price.0);
                assert forall|j: int| i < j < l.len() implies #[trigger] l[j].price.0 != l[i].price.0 by {
                    assert(levels[j].price.0 != levels[i].price.0);
                }
                assert(last_at_price(l, i));
            }
        }
    }
}

/// A snapshot replaces the book: afterwards each side of the symbol's book
/// holds only levels the snapshot lists (the last entry at each price,
/// with its size), so nothing held before survives unless listed again.
/// Without a local depth limit every listed price with a non-zero size is
/// held; with one (Binance), at most that many levels are kept.
pub proof fn law_snapshot_replaces_book(
    pre: OrderBooksIndexerWorker,
    post: OrderBooksIndexerWorker,
    event: NormalizedBookEvent,
    receipt_time: Option<i64>,
    ticks: Seq<TickRecord>,
    gap: Option<RestartSignal>,
)
    requires
        OrderBooksIndexerWorker::event_handled(pre, post, event, receipt_time, ticks, gap),
        event.is_snapshot,
    ensures
        ({
            let c = OrderBooksIndexerWorker::id_after(post, event).0;
            let fb = post.book_indexer.bid_map()[c].as_map();
            let fa = post.book_indexer.ask_map()[c].as_map();
            &&& post.book_indexer.bid_map().contains_key(c)
            &&& post.book_indexer.ask_map().contains_key(c)
            &&& holds_only_listed(event.bids@, fb)
            &&& holds_only_listed(event.asks@, fa)
            &&& local_depth_of(event.exchange@) is None ==> holds_all_listed(event.bids@, fb) && holds_all_listed(
                event.asks@,
                fa,
            )
            &&& local_depth_of(event.exchange@) matches Some(d) ==> fb.dom().len() <= d && fa.dom().len() <= d
        }),
{
    let c = OrderBooksIndexerWorker::id_after(post, event).0;
    let fb = post.book_indexer.bid_map()[c].as_map();
    let fa = post.book_indexer.ask_map()[c].as_map();
    lemma_levels_from_empty(event.bids@);
    lemma_levels_from_empty(event.asks@);
    let ab = apply_levels(Map::empty(), event.bids@);
    let aa = apply_levels(Map::empty(), event.asks@);
    if local_depth_of(event.exchange@) is Some {
        assert forall|p: u32| #[trigger] fb.contains_key(p) implies exists|i: int|
            0 <= i < event.bids@.len() && #[trigger] last_at_price(event.bids@, i) && event.bids@[i].price.0 == p
                && event.bids@[i].size.0 == fb[p] && fb[p] != 0 by {
            assert(ab.contains_key(p) && ab[p] == fb[p]);
        }
        assert forall|p: u32| #[trigger] fa.contains_key(p) implies exists|i: int|
            0 <= i < event.asks@.len() && #[trigger] last_at_price(event.asks@, i) && event.asks@[i].price.0 == p
                && event.asks@[i].size.0 == fa[p] && fa[p] != 0 by {
            assert(aa.contains_key(p) && aa[p] == fa[p]);
        }
    }
}

/// The condition under which a frame entry yields a level.
pub open spec fn sbe_convertible(price_exp: i8, qty_exp: i8) -> spec_fn((i64, i64)) -> bool {
    |e: (i64, i64)| sbe_level(e.0, e.1, price_exp, qty_exp) is Some
}

/// Decoding frame entries keeps one level per convertible entry, in entry
/// order, whatever its quantity (a zero quantity is a deletion and is
/// kept): as many levels as convertible entries, and when every entry
/// converts, the `i`-th level is the `i`-th entry's.
pub proof fn law_sbe_levels_keep_every_entry(entries: Seq<(i64, i64)>, price_exp: i8, qty_exp: i8)
    ensures
        sbe_levels(entries, price_exp, qty_exp).len() == entries.filter(sbe_convertible(price_exp, qty_exp)).len(),
        (forall|i: int| 0 <= i < entries.len() ==> #[trigger] sbe_level(entries[i].0, entries[i].1, price_exp, qty_exp) is Some)
            ==> {
            &&& sbe_levels(entries, price_exp, qty_exp).len() == entries.len()
            &&& forall|i: int|
                0 <= i < entries.len() ==> #[trigger] sbe_levels(entries, price_exp, qty_exp)[i] == sbe_level(
                    entries[i].0,
                    entries[i].1,
                    price_exp,
                    qty_exp,
                )->0
        },
    decreases entries.len(),
{
    reveal(Seq::filter);
    if entries.len() > 0 {
        let l = entries.drop_last();
        law_sbe_levels_keep_every_entry(l, price_exp, qty_exp);
        if forall|i: int| 0 <= i < entries.len() ==> #[trigger] sbe_level(entries[i].0, entries[i].1, price_exp, qty_exp) is Some {
            assert forall|i: int| 0 <= i < l.len() implies #[trigger] sbe_level(l[i].0, l[i].1, price_exp, qty_exp) is Some by {
                assert(l[i] == entries[i]);
                assert(sbe_level(entries[i].0, entries[i].1, price_exp, qty_exp) is Some);
            }
            let n = entries.len() - 1;
            assert(sbe_level(entries[n].0, entries[n].1, price_exp, qty_exp) is Some);
            assert forall|i: int| 0 <= i < entries.len() implies #[trigger] sbe_levels(entries, price_exp, qty_exp)[i] == sbe_level(
                entries[i].0,
                entries[i].1,
                price_exp,
                qty_exp,
            )->0 by {
                if i < n {
                    assert(l[i] == entries[i]);
                    assert(sbe_levels(l, price_exp, qty_exp)[i] == sbe_level(l[i].0, l[i].1, price_exp, qty_exp)->0);
                }
            }
        }
    }
}

/// The condition under which an OKX level yields a book level.
pub open spec fn okx_convertible() -> spec_fn(OkxOrderLevel) -> bool {
    |l: OkxOrderLevel| level_of(l.price@, l.size@) is Some
}

/// Normalising OKX levels keeps one book level per level that parses and
/// scales, in order, whatever its size (a size `0` is a deletion and is
/// kept): as many levels as such OKX levels, and when every level parses,
/// the `i`-th book level is the `i`-th OKX level's.
pub proof fn law_okx_levels_keep_every_level(levels: Seq<OkxOrderLevel>)
    ensures
        okx_levels(levels).len() == levels.filter(okx_convertible()).len(),
        (forall|i: int| 0 <= i < levels.len() ==> #[trigger] level_of(levels[i].price@, levels[i].size@) is Some) ==> {
            &&& okx_levels(levels).len() == levels.len()
            &&& forall|i: int|
                0 <= i < levels.len() ==> #[trigger] okx_levels(levels)[i] == level_of(levels[i].price@, levels[i].size@)->0
        },
    decreases levels.len(),
{
    reveal(Seq::filter);
    if levels.len() > 0 {
        let l = levels.drop_last();
        law_okx_levels_keep_every_level(l);
        if forall|i: int| 0 <= i < levels.len() ==> #[trigger] level_of(levels[i].price@, levels[i].size@) is Some {
            assert forall|i: int| 0 <= i < l.len() implies #[trigger] level_of(l[i].price@, l[i].size@) is Some by {
                assert(l[i] == levels[i]);
                assert(level_of(levels[i].price@, levels[i].size@) is Some);
            }
            let n = levels.len() - 1;
            assert(level_of(levels[n].price@, levels[n].size@) is Some);
            assert forall|i: int| 0 <= i < levels.len() implies #[trigger] okx_levels(levels)[i] == level_of(
                levels[i].price@,
                levels[i].size@,
            )->0 by {
                if i < n {
                    assert(l[i] == levels[i]);
                    assert(okx_levels(l)[i] == level_of(l[i].price@, l[i].size@)->0);
                }
            }
        }
    }
}

/// An OKX push with one delta whose levels all parse becomes an event with
/// one level per level of the delta, in order, sizes of zero included.
pub proof fn law_okx_event_keeps_every_level(m: OkxOrderBookMesssage, e: NormalizedBookEvent)
    requires
        okx_event(m, e),
        m.data@.len() == 1,
        forall|i: int| 0 <= i < m.data@[0].bids@.len() ==> #[trigger] level_of(m.data@[0].bids@[i].price@, m.data@[0].bids@[i].size@) is Some,
        forall|i: int| 0 <= i < m.data@[0].asks@.len() ==> #[trigger] level_of(m.data@[0].asks@[i].price@, m.data@[0].asks@[i].size@) is Some,
    ensures
        e.bids@.len() == m.data@[0].bids@.len(),
        e.asks@.len() == m.data@[0].asks@.len(),
        forall|i: int| 0 <= i < e.bids@.len() ==> #[trigger] e.bids@[i] == level_of(m.data@[0].bids@[i].price@, m.data@[0].bids@[i].size@)->0,
        forall|i: int| 0 <= i < e.asks@.len() ==> #[trigger] e.asks@[i] == level_of(m.data@[0].asks@[i].price@, m.data@[0].asks@[i].size@)->0,
{
    let d = m.data@[0];
    assert(m.data@.drop_last() =~= Seq::<crate::okx::OkxBookData>::empty());
    assert(m.data@.last() == d);
    assert(crate::okx::deltas_bids(Seq::<crate::okx::OkxBookData>::empty()) == Seq::<BookLevel>::empty());
    assert(crate::okx::deltas_asks(Seq::<crate::okx::OkxBookData>::empty()) == Seq::<BookLevel>::empty());
    assert(crate::okx::deltas_bids(m.data@) =~= okx_levels(d.bids@));
    assert(crate::okx::deltas_asks(m.data@) =~= okx_levels(d.asks@));
    law_okx_levels_keep_every_level(d.bids@);
    law_okx_levels_keep_every_level(d.asks@);
}

/// The condition under which a Bybit row yields a level.
pub open spec fn row_convertible() -> spec_fn(Vec<String>) -> bool {
    |r: Vec<String>| row_level(r@) is Some
}

/// Normalising Bybit rows keeps one level per row that parses and scales,
/// in order, whatever its size.
pub proof fn law_rows_levels_keep_every_row(rows: Seq<Vec<String>>)
    ensures
        rows_levels(rows).len() == rows.filter(row_convertible()).len(),
        (forall|i: int| 0 <= i < rows.len() ==> #[trigger] row_level(rows[i]@) is Some) ==> {
            &&& rows_levels(rows).len() == rows.len()
            &&& forall|i: int| 0 <= i < rows.len() ==> #[trigger] rows_levels(rows)[i] == row_level(rows[i]@)->0
        },
    decreases rows.len(),
{
    reveal(Seq::filter);
    if rows.len() > 0 {
        let l = rows.drop_last();
        law_rows_levels_keep_every_row(l);
        if forall|i: int| 0 <= i < rows.len() ==> #[trigger] row_level(rows[i]@) is Some {
            assert forall|i: int| 0 <= i < l.len() implies #[trigger] row_level(l[i]@) is Some by {
                assert(l[i] == rows[i]);
                assert(row_level(rows[i]@) is Some);
            }
            let n = rows.len() - 1;
            assert(row_level(rows[n]@) is Some);
            assert forall|i: int| 0 <= i < rows.len() implies #[trigger] rows_levels(rows)[i] == row_level(rows[i]@)->0 by {
                if i < n {
                    assert(l[i] == rows[i]);
                    assert(rows_levels(l)[i] == row_level(l[i]@)->0);
                }
            }
        }
    }
}


/// `parts` holds the price text and the size text of the level `(k, v)`.
pub open spec fn has_level_texts(parts: Seq<Seq<char>>, k: DecimalParts, v: DecimalParts) -> bool {
    parts.contains(decimal_text(normalized(k))) && parts.contains(decimal_text(normalized(v)))
}

/// `parts` covers the `k`-th best bid (counting from the highest price).
pub open spec fn bid_covered(parts: Seq<Seq<char>>, bk: Seq<DecimalParts>, bv: Seq<DecimalParts>, k: int) -> bool {
    has_level_texts(parts, bk[bk.len() - 1 - k], bv[bk.len() - 1 - k])
}

/// `parts` covers the `k`-th best ask (counting from the lowest price).
pub open spec fn ask_covered(parts: Seq<Seq<char>>, ak: Seq<DecimalParts>, av: Seq<DecimalParts>, k: int) -> bool {
    has_level_texts(parts, ak[k], av[k])
}

proof fn lemma_contains_append(a: Seq<Seq<char>>, b: Seq<Seq<char>>, x: Seq<char>)
    requires
        a.contains(x),
    ensures
        (a + b).contains(x),
{
    let i = choose|i: int| 0 <= i < a.len() && a[i] == x;
    assert((a + b)[i] == x);
}

proof fn lemma_has_texts_append(a: Seq<Seq<char>>, b: Seq<Seq<char>>, k: DecimalParts, v: DecimalParts)
    requires
        has_level_texts(a, k, v),
    ensures
        has_level_texts(a + b, k, v),
{
    lemma_contains_append(a, b, decimal_text(normalized(k)));
    lemma_contains_append(a, b, decimal_text(normalized(v)));
}

proof fn lemma_has_texts_new(a: Seq<Seq<char>>, k: DecimalParts, v: DecimalParts)
    ensures
        has_level_texts(a + seq![decimal_text(normalized(k)), decimal_text(normalized(v))], k, v),
{
    let b = a + seq![decimal_text(normalized(k)), decimal_text(normalized(v))];
    assert(b[a.len() as int] == decimal_text(normalized(k)));
    assert(b[a.len() + 1int] == decimal_text(normalized(v)));
}

/// `n` rounds of checksum parts hold two texts for each of the best
/// `min(n, len)` levels of each side, and the texts of each such level.
proof fn lemma_parts_cover(bk: Seq<DecimalParts>, bv: Seq<DecimalParts>, ak: Seq<DecimalParts>, av: Seq<DecimalParts>, n: nat)
    requires
        bk.len() == bv.len(),
        ak.len() == av.len(),
    ensures
        checksum_parts(bk, bv, ak, av, n).len() == 2 * (if n < bk.len() { n as int } else { bk.len() as int }) + 2 * (if n
            < ak.len() {
            n as int
        } else {
            ak.len() as int
        }),
        forall|k: int| 0 <= k < n && k < bk.len() ==> #[trigger] bid_covered(checksum_parts(bk, bv, ak, av, n), bk, bv, k),
        forall|k: int| 0 <= k < n && k < ak.len() ==> #[trigger] ask_covered(checksum_parts(bk, bv, ak, av, n), ak, av, k),
    decreases n,
{
    if n > 0 {
        let m = (n - 1) as nat;
        lemma_parts_cover(bk, bv, ak, av, m);
        let prev = checksum_parts(bk, bv, ak, av, m);
        let k0 = m as int;
        let with_bid = if k0 < bk.len() {
            prev + crate::okx_book::entry_texts(bk[bk.len() - 1 - k0], bv[bk.len() - 1 - k0])
        } else {
            prev
        };
        let all = checksum_parts(bk, bv, ak, av, n);
        assert(all == if k0 < ak.len() {
            with_bid + crate::okx_book::entry_texts(ak[k0], av[k0])
        } else {
            with_bid
        });
        assert forall|k: int| 0 <= k < n && k < bk.len() implies #[trigger] bid_covered(all, bk, bv, k) by {
            if k < k0 {
                assert(bid_covered(prev, bk, bv, k));
                if k0 < bk.len() {
                    lemma_has_texts_append(prev, crate::okx_book::entry_texts(bk[bk.len() - 1 - k0], bv[bk.len() - 1 - k0]), bk[bk.len() - 1 - k], bv[bk.len() - 1 - k]);
                }
            } else {
                lemma_has_texts_new(prev, bk[bk.len() - 1 - k], bv[bk.len() - 1 - k]);
            }
            assert(has_level_texts(with_bid, bk[bk.len() - 1 - k], bv[bk.len() - 1 - k]));
            if k0 < ak.len() {
                lemma_has_texts_append(with_bid, crate::okx_book::entry_texts(ak[k0], av[k0]), bk[bk.len() - 1 - k], bv[bk.len() - 1 - k]);
            }
        }
        assert forall|k: int| 0 <= k < n && k < ak.len() implies #[trigger] ask_covered(all, ak, av, k) by {
            if k < k0 {
                assert(ask_covered(prev, ak, av, k));
                if k0 < bk.len() {
                    lemma_has_texts_append(prev, crate::okx_book::entry_texts(bk[bk.len() - 1 - k0], bv[bk.len() - 1 - k0]), ak[k], av[k]);
                }
                assert(has_level_texts(with_bid, ak[k], av[k]));
                lemma_has_texts_append(with_bid, crate::okx_book::entry_texts(ak[k0], av[k0]), ak[k], av[k]);
            } else {
                lemma_has_texts_new(with_bid, ak[k], av[k]);
            }
        }
    }
}

/// What the checksum string of a book with sides `bids` and `asks` is
/// made of: `parts` joined with `:`, two texts (price, size) for each of
/// the best 25 levels of each side (all of a side's levels when it has
/// fewer), with the texts of each of those levels among them.
pub open spec fn checksum_string_parts(bids: DecimalLevels, asks: DecimalLevels, parts: Seq<Seq<char>>) -> bool {
    let nb = bids.keys@.len() as int;
    let na = asks.keys@.len() as int;
    &&& checksum_of(bids, asks) == crc32_text(join_colon(parts)) as i32
    &&& parts.len() == 2 * (if nb < 25 { nb } else { 25 }) + 2 * (if na < 25 { na } else { 25 })
    &&& forall|k: int| 0 <= k < 25 && k < nb ==> #[trigger] bid_covered(parts, bids.keys@, bids.values@, k)
    &&& forall|k: int| 0 <= k < 25 && k < na ==> #[trigger] ask_covered(parts, asks.keys@, asks.values@, k)
}

/// The OKX checksum covers the top 25 levels of each side: it is the CRC32
/// of a `:`-joined string holding the price and size texts of each of the
/// best `min(25, n)` levels of a side with `n` levels, and no other texts.
pub proof fn law_checksum_covers_top_levels(bids: DecimalLevels, asks: DecimalLevels)
    requires
        bids.wf(),
        asks.wf(),
    ensures
        exists|parts: Seq<Seq<char>>| #[trigger] checksum_string_parts(bids, asks, parts),
{
    let parts = checksum_parts(bids.keys@, bids.values@, asks.keys@, asks.values@, 25);
    lemma_parts_cover(bids.keys@, bids.values@, asks.keys@, asks.values@, 25);
    assert(checksum_string_parts(bids, asks, parts));
}

/// On a delta whose sequence id is a multiple of 100, a checksum alert is
/// raised exactly when the delta's checksum differs from the checksum of
/// the book with the delta's levels already applied, and it reports that
/// checksum; other deltas raise no checksum alert.
pub proof fn law_checksum_checked_after_delta(v: OkxView, d: BookData)
    ensures
        ({
            let (v2, al) = update_step(v, d);
            &&& (exists|j: int| 0 <= j < al.len() && #[trigger] al[j] is Checksum) <==> (d.seq_id % 100 == 0 && d.checksum
                != checksum_of_maps(v2.2, v2.3))
            &&& forall|j: int|
                0 <= j < al.len() && #[trigger] al[j] is Checksum ==> al[j] == (AlertSpec::Checksum {
                    expected: d.checksum,
                    actual: checksum_of_maps(v2.2, v2.3),
                })
        }),
{
    let (v2, al) = update_step(v, d);
    if d.seq_id % 100 == 0 && d.checksum != checksum_of_maps(v2.2, v2.3) {
        assert(al[al.len() - 1] is Checksum);
    }
}

} // verus!

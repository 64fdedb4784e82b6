//! One side of a book keyed by decimal price, as a `BTreeMap<Decimal,
//! Decimal>` holds it: entries in ascending order of price value, one per
//! value; a key keeps the form it was first inserted with.

use vstd::prelude::*;
use crate::decimal::{decimal_eq, decimal_lt, value28, DecimalParts};

verus! {

/// `m` after `BTreeMap::insert(price, size)`: the size replaced for an
/// existing price value (whose key stays), or a new entry.
pub open spec fn map_insert(
    m: Map<int, (DecimalParts, DecimalParts)>,
    price: DecimalParts,
    size: DecimalParts,
) -> Map<int, (DecimalParts, DecimalParts)> {
    m.insert(
        value28(price),
        (
            if m.contains_key(value28(price)) {
                m[value28(price)].0
            } else {
                price
            },
            size,
        ),
    )
}

/// `m` after a level update where a zero size removes the price and any
/// other size is inserted.
pub open spec fn map_modify(
    m: Map<int, (DecimalParts, DecimalParts)>,
    price: DecimalParts,
    size: DecimalParts,
) -> Map<int, (DecimalParts, DecimalParts)> {
    if size.mantissa == 0 {
        m.remove(value28(price))
    } else {
        map_insert(m, price, size)
    }
}

/// The best `n` levels of both sides, paired: `n` is the smallest of
/// `depth` and the two sides' lengths; bids from the highest price down,
/// asks from the lowest up, each as a price column and a size column.
pub open spec fn top_columns_of(
    bids: DecimalLevels,
    asks: DecimalLevels,
    depth: nat,
    bid_prices: Seq<DecimalParts>,
    bid_sizes: Seq<DecimalParts>,
    ask_prices: Seq<DecimalParts>,
    ask_sizes: Seq<DecimalParts>,
) -> bool {
    let nb = bids.keys@.len();
    let n = if depth <= nb && depth <= asks.keys@.len() {
        depth
    } else if nb <= asks.keys@.len() {
        nb
    } else {
        asks.keys@.len()
    };
    &&& bid_prices.len() == n && bid_sizes.len() == n && ask_prices.len() == n && ask_sizes.len() == n
    &&& forall|i: int| 0 <= i < n ==> #[trigger] bid_prices[i] == bids.keys@[nb - 1 - i]
    &&& forall|i: int| 0 <= i < n ==> #[trigger] bid_sizes[i] == bids.values@[nb - 1 - i]
    &&& forall|i: int| 0 <= i < n ==> #[trigger] ask_prices[i] == asks.keys@[i]
    &&& forall|i: int| 0 <= i < n ==> #[trigger] ask_sizes[i] == asks.values@[i]
}

/// The best levels of both sides as four columns (bid prices, bid sizes,
/// ask prices, ask sizes), at most `depth` pairs.
pub fn top_columns(bids: &DecimalLevels, asks: &DecimalLevels, depth: usize) -> (r: (
    Vec<DecimalParts>,
    Vec<DecimalParts>,
    Vec<DecimalParts>,
    Vec<DecimalParts>,
))
    requires
        bids.wf(),
        asks.wf(),
    ensures
        top_columns_of(*bids, *asks, depth as nat, r.0@, r.1@, r.2@, r.3@),
{
    let nb = bids.keys.len();
    let na = asks.keys.len();
    let n = if depth <= nb && depth <= na {
        depth
    } else if nb <= na {
        nb
    } else {
        na
    };
    let mut bp: Vec<DecimalParts> = Vec::with_capacity(n);
    let mut bs: Vec<DecimalParts> = Vec::with_capacity(n);
    let mut ap: Vec<DecimalParts> = Vec::with_capacity(n);
    let mut asz: Vec<DecimalParts> = Vec::with_capacity(n);
    let mut i: usize = 0;
    while i < n
        invariant
            bids.wf(),
            asks.wf(),
            nb == bids.keys@.len(),
            na == asks.keys@.len(),
            n <= nb && n <= na,
            i <= n,
            bp.len() == i && bs.len() == i && ap.len() == i && asz.len() == i,
            forall|j: int| 0 <= j < i ==> #[trigger] bp@[j] == bids.keys@[nb - 1 - j],
            forall|j: int| 0 <= j < i ==> #[trigger] bs@[j] == bids.values@[nb - 1 - j],
            forall|j: int| 0 <= j < i ==> #[trigger] ap@[j] == asks.keys@[j],
            forall|j: int| 0 <= j < i ==> #[trigger] asz@[j] == asks.values@[j],
        decreases n - i,
    {
        bp.push(bids.keys[nb - 1 - i]);
        bs.push(bids.values[nb - 1 - i]);
        ap.push(asks.keys[i]);
        asz.push(asks.values[i]);
        i = i + 1;
    }
    (bp, bs, ap, asz)
}

/// Price and size columns, in ascending order of price value.
#[derive(Debug)]
pub struct DecimalLevels {
    pub keys: Vec<DecimalParts>,
    pub values: Vec<DecimalParts>,
}

impl DecimalLevels {
    /// Same length columns, strictly ascending price values, every decimal
    /// within what a `Decimal` holds.
    pub open spec fn wf(&self) -> bool {
        &&& self.keys@.len() == self.values@.len()
        &&& forall|i: int, j: int|
            0 <= i < j < self.keys@.len() ==> value28(#[trigger] self.keys@[i]) < value28(#[trigger] self.keys@[j])
        &&& forall|i: int| 0 <= i < self.keys@.len() ==> (#[trigger] self.keys@[i]).wf()
        &&& forall|i: int| 0 <= i < self.values@.len() ==> (#[trigger] self.values@[i]).wf()
    }

    /// Some entry's price has value `v` (times 10^28).
    pub open spec fn has_value(&self, v: int) -> bool {
        exists|i: int| 0 <= i < self.keys@.len() && value28(#[trigger] self.keys@[i]) == v
    }

    /// The side as a map from price value to the stored (price, size).
    pub open spec fn as_map(&self) -> Map<int, (DecimalParts, DecimalParts)> {
        Map::new(
            |v: int| self.has_value(v),
            |v: int| {
                let i = choose|i: int| 0 <= i < self.keys@.len() && value28(#[trigger] self.keys@[i]) == v;
                (self.keys@[i], self.values@[i])
            },
        )
    }

    /// The entries in ascending price order.
    pub open spec fn entries(&self) -> Seq<(DecimalParts, DecimalParts)> {
        Seq::new(self.keys@.len(), |i: int| (self.keys@[i], self.values@[i]))
    }

    /// Under `wf`, entry `i` is what the map holds for its price value.
    pub proof fn lemma_map_at(&self, i: int)
        requires
            self.wf(),
            0 <= i < self.keys@.len(),
        ensures
            self.as_map().contains_key(value28(self.keys@[i])),
            self.as_map()[value28(self.keys@[i])] == (self.keys@[i], self.values@[i]),
    {
        let v = value28(self.keys@[i]);
        assert(self.has_value(v));
        let k = choose|k: int| 0 <= k < self.keys@.len() && value28(#[trigger] self.keys@[k]) == v;
        if k != i {
            if k < i {
                assert(value28(self.keys@[k]) < value28(self.keys@[i]));
            } else {
                assert(value28(self.keys@[i]) < value28(self.keys@[k]));
            }
        }
    }

    /// An empty side.
    pub fn new() -> (r: Self)
        ensures
            r.wf(),
            r.keys@.len() == 0,
            r.as_map() == Map::<int, (DecimalParts, DecimalParts)>::empty(),
    {
        let r = DecimalLevels { keys: Vec::new(), values: Vec::new() };
        assert(r.as_map() =~= Map::<int, (DecimalParts, DecimalParts)>::empty());
        r
    }

    /// Number of entries.
    pub fn len(&self) -> (r: usize)
        requires
            self.wf(),
        ensures
            r == self.keys@.len(),
    {
        self.keys.len()
    }

    /// Removes every entry.
    pub fn clear(&mut self)
        ensures
            final(self).wf(),
            final(self).keys@.len() == 0,
            final(self).as_map() == Map::<int, (DecimalParts, DecimalParts)>::empty(),
    {
        self.keys.clear();
        self.values.clear();
        assert(self.as_map() =~= Map::<int, (DecimalParts, DecimalParts)>::empty());
    }

    /// Binary search for the value of `price`: `Ok(i)` when entry `i` has
    /// it, `Err(i)` with the index at which it would be inserted.
    pub fn search(&self, price: DecimalParts) -> (r: Result<usize, usize>)
        requires
            self.wf(),
            price.wf(),
        ensures
            match r {
                Ok(i) => i < self.keys@.len() && value28(self.keys@[i as int]) == value28(price),
                Err(i) => {
                    &&& i <= self.keys@.len()
                    &&& forall|j: int| 0 <= j < i ==> value28(#[trigger] self.keys@[j]) < value28(price)
                    &&& forall|j: int| i <= j < self.keys@.len() ==> value28(price) < value28(#[trigger] self.keys@[j])
                },
            },
    {
        let mut lo: usize = 0;
        let mut hi: usize = self.keys.len();
        while lo < hi
            invariant
                self.wf(),
                price.wf(),
                lo <= hi <= self.keys@.len(),
                forall|j: int| 0 <= j < lo ==> value28(#[trigger] self.keys@[j]) < value28(price),
                forall|j: int| hi <= j < self.keys@.len() ==> value28(price) < value28(#[trigger] self.keys@[j]),
            decreases hi - lo,
        {
            let mid = lo + (hi - lo) / 2;
            let km = self.keys[mid];
            if decimal_eq(km, price) {
                return Ok(mid);
            } else if decimal_lt(km, price) {
                assert forall|j: int| 0 <= j < mid + 1 implies value28(#[trigger] self.keys@[j]) < value28(price) by {
                    if j < mid {
                        assert(value28(self.keys@[j]) < value28(self.keys@[mid as int]));
                    }
                }
                lo = mid + 1;
            } else {
                assert forall|j: int| mid <= j < self.keys@.len() implies value28(price) < value28(#[trigger] self.keys@[j]) by {
                    if j > mid {
                        assert(value28(self.keys@[mid as int]) < value28(self.keys@[j]));
                    }
                }
                hi = mid;
            }
        }
        Err(lo)
    }

    /// `BTreeMap::insert(price, size)`: the size of an entry with the same
    /// price value is replaced (its key kept); otherwise a new entry is
    /// added in order.
    pub fn insert(&mut self, price: DecimalParts, size: DecimalParts)
        requires
            old(self).wf(),
            price.wf(),
            size.wf(),
        ensures
            final(self).wf(),
            final(self).as_map() == old(self).as_map().insert(
                value28(price),
                (
                    if old(self).as_map().contains_key(value28(price)) {
                        old(self).as_map()[value28(price)].0
                    } else {
                        price
                    },
                    size,
                ),
            ),
    {
        let ghost pre = *self;
        match self.search(price) {
            Ok(index) => {
                proof {
                    pre.lemma_map_at(index as int);
                }
                self.values.set(index, size);
                proof {
                    Self::lemma_set_at(pre, *self, index as int);
                }
            },
            Err(index) => {
                self.keys.insert(index, price);
                self.values.insert(index, size);
                proof {
                    Self::lemma_insert_at(pre, *self, index as int);
                    if pre.has_value(value28(price)) {
                        let k = choose|k: int| 0 <= k < pre.keys@.len() && value28(#[trigger] pre.keys@[k]) == value28(price);
                        if k < index {
                            assert(value28(pre.keys@[k]) < value28(price));
                        } else {
                            assert(value28(price) < value28(pre.keys@[k]));
                        }
                    }
                }
            },
        }
    }

    /// `BTreeMap::remove(price)`: the entry with the same price value goes.
    pub fn remove(&mut self, price: DecimalParts)
        requires
            old(self).wf(),
            price.wf(),
        ensures
            final(self).wf(),
            final(self).as_map() == old(self).as_map().remove(value28(price)),
    {
        let ghost pre = *self;
        match self.search(price) {
            Ok(index) => {
                self.keys.remove(index);
                self.values.remove(index);
                proof {
                    Self::lemma_remove_at(pre, *self, index as int);
                }
            },
            Err(index) => {
                proof {
                    if pre.has_value(value28(price)) {
                        let k = choose|k: int| 0 <= k < pre.keys@.len() && value28(#[trigger] pre.keys@[k]) == value28(price);
                        if k < index {
                            assert(value28(pre.keys@[k]) < value28(price));
                        } else {
                            assert(value28(price) < value28(pre.keys@[k]));
                        }
                    }
                    assert(pre.as_map().remove(value28(price)) =~= pre.as_map());
                }
            },
        }
    }

    /// A level update: a zero size removes the price, any other size is
    /// inserted.
    pub fn modify(&mut self, price: DecimalParts, size: DecimalParts)
        requires
            old(self).wf(),
            price.wf(),
            size.wf(),
        ensures
            final(self).wf(),
            final(self).as_map() == map_modify(old(self).as_map(), price, size),
    {
        if size.mantissa == 0 {
            self.remove(price);
        } else {
            self.insert(price, size);
        }
    }

    /// Two well-formed sides with the same map hold the same entries.
    pub proof fn lemma_determined_by_map(a: Self, b: Self)
        requires
            a.wf(),
            b.wf(),
            a.as_map() == b.as_map(),
        ensures
            a.keys@ == b.keys@,
            a.values@ == b.values@,
    {
        assert forall|i: int| 0 <= i < a.keys@.len() implies i < b.keys@.len() && value28(#[trigger] a.keys@[i]) == value28(b.keys@[i]) by {
            Self::lemma_same_value_at(a, b, i);
        }
        if b.keys@.len() > a.keys@.len() {
            Self::lemma_same_value_at(b, a, b.keys@.len() - 1);
        }
        if a.keys@.len() > b.keys@.len() {
            Self::lemma_same_value_at(a, b, a.keys@.len() - 1);
        }
        assert forall|i: int| 0 <= i < a.keys@.len() implies a.keys@[i] == b.keys@[i] && a.values@[i] == b.values@[i] by {
            Self::lemma_same_value_at(a, b, i);
            a.lemma_map_at(i);
            b.lemma_map_at(i);
        }
        assert(a.keys@ =~= b.keys@);
        assert(a.values@ =~= b.values@);
    }

    /// With equal maps, entry `i` of `a` has the value of entry `i` of `b`.
    proof fn lemma_same_value_at(a: Self, b: Self, i: int)
        requires
            a.wf(),
            b.wf(),
            a.as_map() == b.as_map(),
            0 <= i < a.keys@.len(),
        ensures
            i < b.keys@.len(),
            value28(a.keys@[i]) == value28(b.keys@[i]),
        decreases i,
    {
        if i > 0 {
            Self::lemma_same_value_at(a, b, i - 1);
        }
        let v = value28(a.keys@[i]);
        a.lemma_map_at(i);
        assert(b.has_value(v));
        let k = choose|k: int| 0 <= k < b.keys@.len() && value28(#[trigger] b.keys@[k]) == v;
        if k < i {
            Self::lemma_same_value_at(a, b, k);
            assert(value28(a.keys@[k]) < value28(a.keys@[i]));
        }
        if k > i {
            let w = value28(b.keys@[i]);
            assert(w < v);
            b.lemma_map_at(i);
            assert(a.has_value(w));
            let m = choose|m: int| 0 <= m < a.keys@.len() && value28(#[trigger] a.keys@[m]) == w;
            if m > i {
                assert(value28(a.keys@[i]) < value28(a.keys@[m]));
            }
            if m < i {
                Self::lemma_same_value_at(a, b, m);
                assert(value28(b.keys@[m]) < value28(b.keys@[i]));
            }
        }
    }

    proof fn lemma_remove_at(a: Self, b: Self, i: int)
        requires
            a.wf(),
            0 <= i < a.keys@.len(),
            b.keys@ == a.keys@.remove(i),
            b.values@ == a.values@.remove(i),
        ensures
            b.wf(),
            b.as_map() == a.as_map().remove(value28(a.keys@[i])),
    {
        let p = value28(a.keys@[i]);
        assert forall|x: int, y: int| 0 <= x < y < b.keys@.len() implies value28(#[trigger] b.keys@[x]) < value28(
            #[trigger] b.keys@[y],
        ) by {
            let xa = if x < i { x } else { x + 1 };
            let ya = if y < i { y } else { y + 1 };
            assert(value28(a.keys@[xa]) < value28(a.keys@[ya]));
        }
        assert forall|x: int| 0 <= x < b.keys@.len() implies (#[trigger] b.keys@[x]).wf() by {
            let xa = if x < i { x } else { x + 1 };
            assert(a.keys@[xa].wf());
        }
        assert forall|x: int| 0 <= x < b.values@.len() implies (#[trigger] b.values@[x]).wf() by {
            let xa = if x < i { x } else { x + 1 };
            assert(a.values@[xa].wf());
        }
        assert forall|q: int| #[trigger] b.as_map().contains_key(q) <==> a.as_map().remove(p).contains_key(q) by {
            if b.has_value(q) {
                let j = choose|j: int| 0 <= j < b.keys@.len() && value28(#[trigger] b.keys@[j]) == q;
                let ja = if j < i { j } else { j + 1 };
                assert(value28(a.keys@[ja]) == q);
                assert(a.has_value(q));
                if q == p {
                    if ja < i {
                        assert(value28(a.keys@[ja]) < value28(a.keys@[i]));
                    } else {
                        assert(value28(a.keys@[i]) < value28(a.keys@[ja]));
                    }
                }
            }
            if a.has_value(q) && q != p {
                let k = choose|k: int| 0 <= k < a.keys@.len() && value28(#[trigger] a.keys@[k]) == q;
                let kb = if k < i { k } else { k - 1 };
                assert(value28(b.keys@[kb]) == q);
                assert(b.has_value(q));
            }
        }
        assert forall|q: int| #[trigger] b.as_map().contains_key(q) implies b.as_map()[q] == a.as_map()[q] by {
            let j = choose|j: int| 0 <= j < b.keys@.len() && value28(#[trigger] b.keys@[j]) == q;
            let ja = if j < i { j } else { j + 1 };
            b.lemma_map_at(j);
            a.lemma_map_at(ja);
        }
        assert(b.as_map() =~= a.as_map().remove(p));
    }

    proof fn lemma_set_at(a: Self, b: Self, i: int)
        requires
            a.wf(),
            0 <= i < a.keys@.len(),
            b.keys@ == a.keys@,
            b.values@.len() == a.values@.len(),
            b.values@[i].wf(),
            forall|x: int| 0 <= x < a.values@.len() && x != i ==> b.values@[x] == a.values@[x],
        ensures
            b.wf(),
            b.as_map() == a.as_map().insert(value28(a.keys@[i]), (a.keys@[i], b.values@[i])),
    {
        let p = value28(a.keys@[i]);
        assert forall|x: int| 0 <= x < b.values@.len() implies (#[trigger] b.values@[x]).wf() by {
            if x != i {
                assert(a.values@[x].wf());
            }
        }
        assert forall|q: int| #[trigger] b.as_map().contains_key(q) <==> a.as_map().insert(
            p,
            (a.keys@[i], b.values@[i]),
        ).contains_key(q) by {
            assert(b.has_value(q) == a.has_value(q));
            assert(a.has_value(p));
        }
        assert forall|q: int| #[trigger] b.as_map().contains_key(q) implies b.as_map()[q] == a.as_map().insert(
            p,
            (a.keys@[i], b.values@[i]),
        )[q] by {
            let j = choose|j: int| 0 <= j < b.keys@.len() && value28(#[trigger] b.keys@[j]) == q;
            b.lemma_map_at(j);
            a.lemma_map_at(j);
            if q == p && j != i {
                if j < i {
                    assert(value28(a.keys@[j]) < value28(a.keys@[i]));
                } else {
                    assert(value28(a.keys@[i]) < value28(a.keys@[j]));
                }
            }
        }
        assert(b.as_map() =~= a.as_map().insert(p, (a.keys@[i], b.values@[i])));
    }

    proof fn lemma_insert_at(a: Self, b: Self, i: int)
        requires
            a.wf(),
            0 <= i <= a.keys@.len(),
            b.keys@.len() == a.keys@.len() + 1,
            b.keys@ == a.keys@.insert(i, b.keys@[i]),
            b.values@ == a.values@.insert(i, b.values@[i]),
            b.keys@[i].wf(),
            b.values@[i].wf(),
            forall|j: int| 0 <= j < i ==> value28(#[trigger] a.keys@[j]) < value28(b.keys@[i]),
            forall|j: int| i <= j < a.keys@.len() ==> value28(b.keys@[i]) < value28(#[trigger] a.keys@[j]),
        ensures
            b.wf(),
            b.as_map() == a.as_map().insert(value28(b.keys@[i]), (b.keys@[i], b.values@[i])),
    {
        let p = value28(b.keys@[i]);
        let e = (b.keys@[i], b.values@[i]);
        assert forall|x: int, y: int| 0 <= x < y < b.keys@.len() implies value28(#[trigger] b.keys@[x]) < value28(
            #[trigger] b.keys@[y],
        ) by {
            if x < i && y < i {
                assert(value28(a.keys@[x]) < value28(a.keys@[y]));
            } else if x < i && y == i {
            } else if x < i {
                assert(value28(a.keys@[x]) < value28(a.keys@[y - 1]));
            } else if x == i {
                assert(p < value28(a.keys@[y - 1]));
            } else {
                assert(value28(a.keys@[x - 1]) < value28(a.keys@[y - 1]));
            }
        }
        assert forall|x: int| 0 <= x < b.keys@.len() implies (#[trigger] b.keys@[x]).wf() by {
            if x < i {
                assert(a.keys@[x].wf());
            } else if x > i {
                assert(a.keys@[x - 1].wf());
            }
        }
        assert forall|x: int| 0 <= x < b.values@.len() implies (#[trigger] b.values@[x]).wf() by {
            if x < i {
                assert(a.values@[x].wf());
            } else if x > i {
                assert(a.values@[x - 1].wf());
            }
        }
        assert forall|q: int| #[trigger] b.as_map().contains_key(q) <==> a.as_map().insert(p, e).contains_key(q) by {
            assert(value28(b.keys@[i]) == p);
            assert(b.has_value(p));
            if b.has_value(q) && q != p {
                let j = choose|j: int| 0 <= j < b.keys@.len() && value28(#[trigger] b.keys@[j]) == q;
                let ja = if j < i { j } else { j - 1 };
                assert(value28(a.keys@[ja]) == q);
                assert(a.has_value(q));
            }
            if a.has_value(q) {
                let k = choose|k: int| 0 <= k < a.keys@.len() && value28(#[trigger] a.keys@[k]) == q;
                let kb = if k < i { k } else { k + 1 };
                assert(value28(b.keys@[kb]) == q);
                assert(b.has_value(q));
            }
        }
        assert forall|q: int| #[trigger] b.as_map().contains_key(q) implies b.as_map()[q] == a.as_map().insert(p, e)[q] by {
            let j = choose|j: int| 0 <= j < b.keys@.len() && value28(#[trigger] b.keys@[j]) == q;
            b.lemma_map_at(j);
            if j != i {
                let ja = if j < i { j } else { j - 1 };
                a.lemma_map_at(ja);
            }
        }
        assert(b.as_map() =~= a.as_map().insert(p, e));
    }
}

} // verus!

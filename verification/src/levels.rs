//! Price levels of one side of an order book, kept as two parallel columns
//! (prices and sizes) sorted from the top of the book outwards.

use vstd::prelude::*;

verus! {

/// A price in integer ticks (the exchange price multiplied by the price scale).
#[derive(Debug, Clone, Copy, PartialEq, Eq, Structural, PartialOrd, Ord)]
pub struct Price(pub u32);

/// A quantity in integer units (the exchange size multiplied by the size scale).
#[derive(Debug, Clone, Copy, PartialEq, Eq, Structural, PartialOrd, Ord)]
pub struct Size(pub u64);

/// Which side of the book a level belongs to.
#[derive(Debug, Clone, Copy, PartialEq, Eq, Structural)]
pub enum BookSide {
    Bid,
    Ask,
}

/// One price level: a price and the quantity resting at it.
#[derive(Debug, Clone, Copy, PartialEq, Eq, Structural)]
pub struct BookLevel {
    pub price: Price,
    pub size: Size,
}

/// `a` is nearer to the top of the book than `b` on `side`:
/// higher for bids, lower for asks.
pub open spec fn better(side: BookSide, a: u32, b: u32) -> bool {
    match side {
        BookSide::Bid => a > b,
        BookSide::Ask => a < b,
    }
}

/// `post` holds the `k` best entries of `pre` on `side` (all of them when
/// `pre` has at most `k`): same sizes, and every kept price is better than
/// every dropped one.
pub open spec fn keeps_best(pre: Map<u32, u64>, post: Map<u32, u64>, side: BookSide, k: nat) -> bool {
    &&& post.submap_of(pre)
    &&& post.dom().finite()
    &&& post.dom().len() == (if k < pre.dom().len() { k } else { pre.dom().len() })
    &&& forall|p: u32, q: u32|
        #[trigger] post.contains_key(p) && #[trigger] pre.contains_key(q) && !post.contains_key(q) ==> better(side, p, q)
}

/// The levels of one side of one book, best level first.
#[derive(Debug)]
pub struct OrderBookData {
    pub prices: Vec<Price>,
    pub sizes: Vec<Size>,
}

impl OrderBookData {
    /// Both columns have the same length, prices are strictly ordered from the
    /// best level outwards, and no level has size zero.
    pub open spec fn wf(&self, side: BookSide) -> bool {
        &&& self.prices@.len() == self.sizes@.len()
        &&& forall|i: int, j: int|
            0 <= i < j < self.prices@.len() ==> better(side, #[trigger] self.prices@[i].0, #[trigger] self.prices@[j].0)
        &&& forall|i: int| 0 <= i < self.sizes@.len() ==> #[trigger] self.sizes@[i].0 > 0
    }

    /// `price` is present at some level.
    pub open spec fn has_price(&self, price: u32) -> bool {
        exists|i: int| 0 <= i < self.prices@.len() && #[trigger] self.prices@[i].0 == price
    }

    /// The book as a map from price to size.
    pub open spec fn as_map(&self) -> Map<u32, u64> {
        Map::new(
            |p: u32| self.has_price(p),
            |p: u32| self.sizes@[choose|i: int| 0 <= i < self.prices@.len() && #[trigger] self.prices@[i].0 == p].0,
        )
    }

    /// The levels as (price, size) pairs, best first.
    pub open spec fn level_seq(&self) -> Seq<(u32, u64)> {
        Seq::new(self.prices@.len(), |i: int| (self.prices@[i].0, self.sizes@[i].0))
    }

    /// Under `wf`, the level at index `i` is what the map holds for its price.
    pub proof fn lemma_map_at(&self, side: BookSide, i: int)
        requires
            self.wf(side),
            0 <= i < self.prices@.len(),
        ensures
            self.as_map().contains_key(self.prices@[i].0),
            self.as_map()[self.prices@[i].0] == self.sizes@[i].0,
    {
        let p = self.prices@[i].0;
        assert(self.has_price(p));
        let k = choose|k: int| 0 <= k < self.prices@.len() && #[trigger] self.prices@[k].0 == p;
        if k != i {
            if k < i {
                assert(better(side, self.prices@[k].0, self.prices@[i].0));
            } else {
                assert(better(side, self.prices@[i].0, self.prices@[k].0));
            }
        }
    }


    /// `better` as an executable test.
    pub fn is_better(side: BookSide, a: u32, b: u32) -> (r: bool)
        ensures
            r == better(side, a, b),
    {
        match side {
            BookSide::Bid => a > b,
            BookSide::Ask => a < b,
        }
    }

    /// Binary search for `price` in a well-formed side: `Ok(i)` when level `i`
    /// holds it, `Err(i)` with the index at which it would be inserted.
    pub fn search_price(&self, side: BookSide, price: Price) -> (r: Result<usize, usize>)
        requires
            self.wf(side),
        ensures
            match r {
                Ok(i) => i < self.prices@.len() && self.prices@[i as int].0 == price.0,
                Err(i) => {
                    &&& i <= self.prices@.len()
                    &&& forall|j: int| 0 <= j < i ==> better(side, #[trigger] self.prices@[j].0, price.0)
                    &&& forall|j: int| i <= j < self.prices@.len() ==> better(side, price.0, #[trigger] self.prices@[j].0)
                },
            },
    {
        let mut lo: usize = 0;
        let mut hi: usize = self.prices.len();
        while lo < hi
            invariant
                self.wf(side),
                lo <= hi <= self.prices@.len(),
                forall|j: int| 0 <= j < lo ==> better(side, #[trigger] self.prices@[j].0, price.0),
                forall|j: int| hi <= j < self.prices@.len() ==> better(side, price.0, #[trigger] self.prices@[j].0),
            decreases hi - lo,
        {
            let mid = lo + (hi - lo) / 2;
            let pm = self.prices[mid].0;
            if pm == price.0 {
                return Ok(mid);
            } else if Self::is_better(side, pm, price.0) {
                assert forall|j: int| 0 <= j < mid + 1 implies better(side, #[trigger] self.prices@[j].0, price.0) by {
                    if j < mid {
                        assert(better(side, self.prices@[j].0, self.prices@[mid as int].0));
                    }
                }
                lo = mid + 1;
            } else {
                assert forall|j: int| mid <= j < self.prices@.len() implies better(side, price.0, #[trigger] self.prices@[j].0) by {
                    if j > mid {
                        assert(better(side, self.prices@[mid as int].0, self.prices@[j].0));
                    }
                }
                hi = mid;
            }
        }
        Err(lo)
    }

    /// Sets the size resting at `price`: a zero size removes the level, any
    /// other size replaces it or inserts a new level in price order.
    pub fn apply_level(&mut self, side: BookSide, price: Price, new_size: Size)
        requires
            old(self).wf(side),
        ensures
            final(self).wf(side),
            final(self).as_map() == (if new_size.0 == 0 {
                old(self).as_map().remove(price.0)
            } else {
                old(self).as_map().insert(price.0, new_size.0)
            }),
    {
        let ghost pre = *self;
        match self.search_price(side, price) {
            Ok(index) => {
                if new_size.0 == 0 {
                    self.prices.remove(index);
                    self.sizes.remove(index);
                    proof { Self::lemma_remove_at(pre, *self, side, index as int); }
                } else {
                    self.sizes.set(index, new_size);
                    proof { Self::lemma_set_at(pre, *self, side, index as int); }
                }
            },
            Err(index) => {
                if new_size.0 > 0 {
                    self.prices.insert(index, price);
                    self.sizes.insert(index, new_size);
                    proof { Self::lemma_insert_at(pre, *self, side, index as int); }
                }
            },
        }
    }

    proof fn lemma_remove_at(a: Self, b: Self, side: BookSide, i: int)
        requires
            a.wf(side),
            0 <= i < a.prices@.len(),
            b.prices@ == a.prices@.remove(i),
            b.sizes@ == a.sizes@.remove(i),
        ensures
            b.wf(side),
            b.as_map() == a.as_map().remove(a.prices@[i].0),
    {
        let p = a.prices@[i].0;
        assert forall|x: int, y: int| 0 <= x < y < b.prices@.len() implies better(side, #[trigger] b.prices@[x].0, #[trigger] b.prices@[y].0) by {
            let xa = if x < i { x } else { x + 1 };
            let ya = if y < i { y } else { y + 1 };
            assert(better(side, a.prices@[xa].0, a.prices@[ya].0));
        }
        assert forall|x: int| 0 <= x < b.sizes@.len() implies #[trigger] b.sizes@[x].0 > 0 by {
            let xa = if x < i { x } else { x + 1 };
            assert(a.sizes@[xa].0 > 0);
        }
        assert forall|q: u32| #[trigger] b.as_map().contains_key(q) <==> a.as_map().remove(p).contains_key(q) by {
            if b.has_price(q) {
                let j = choose|j: int| 0 <= j < b.prices@.len() && #[trigger] b.prices@[j].0 == q;
                let ja = if j < i { j } else { j + 1 };
                assert(a.prices@[ja].0 == q);
                assert(a.has_price(q));
                if q == p {
                    if ja < i {
                        assert(better(side, a.prices@[ja].0, a.prices@[i].0));
                    } else {
                        assert(better(side, a.prices@[i].0, a.prices@[ja].0));
                    }
                }
            }
            if a.has_price(q) && q != p {
                let k = choose|k: int| 0 <= k < a.prices@.len() && #[trigger] a.prices@[k].0 == q;
                let kb = if k < i { k } else { k - 1 };
                assert(b.prices@[kb].0 == q);
                assert(b.has_price(q));
            }
        }
        assert forall|q: u32| #[trigger] b.as_map().contains_key(q) implies b.as_map()[q] == a.as_map()[q] by {
            let j = choose|j: int| 0 <= j < b.prices@.len() && #[trigger] b.prices@[j].0 == q;
            let ja = if j < i { j } else { j + 1 };
            b.lemma_map_at(side, j);
            a.lemma_map_at(side, ja);
        }
        assert(b.as_map() =~= a.as_map().remove(p));
    }

    proof fn lemma_set_at(a: Self, b: Self, side: BookSide, i: int)
        requires
            a.wf(side),
            0 <= i < a.prices@.len(),
            b.prices@ == a.prices@,
            b.sizes@.len() == a.sizes@.len(),
            b.sizes@[i].0 > 0,
            forall|x: int| 0 <= x < a.sizes@.len() && x != i ==> b.sizes@[x] == a.sizes@[x],
        ensures
            b.wf(side),
            b.as_map() == a.as_map().insert(a.prices@[i].0, b.sizes@[i].0),
    {
        let p = a.prices@[i].0;
        assert forall|x: int| 0 <= x < b.sizes@.len() implies #[trigger] b.sizes@[x].0 > 0 by {
            if x != i {
                assert(a.sizes@[x].0 > 0);
            }
        }
        assert forall|q: u32| #[trigger] b.as_map().contains_key(q) <==> a.as_map().insert(p, b.sizes@[i].0).contains_key(q) by {
            assert(b.has_price(q) == a.has_price(q));
            assert(a.prices@[i].0 == p);
            assert(a.has_price(p));
        }
        assert forall|q: u32| #[trigger] b.as_map().contains_key(q) implies b.as_map()[q] == a.as_map().insert(p, b.sizes@[i].0)[q] by {
            let j = choose|j: int| 0 <= j < b.prices@.len() && #[trigger] b.prices@[j].0 == q;
            b.lemma_map_at(side, j);
            a.lemma_map_at(side, j);
            if q == p && j != i {
                if j < i {
                    assert(better(side, a.prices@[j].0, a.prices@[i].0));
                } else {
                    assert(better(side, a.prices@[i].0, a.prices@[j].0));
                }
            }
        }
        assert(b.as_map() =~= a.as_map().insert(p, b.sizes@[i].0));
    }

    proof fn lemma_insert_at(a: Self, b: Self, side: BookSide, i: int)
        requires
            a.wf(side),
            0 <= i <= a.prices@.len(),
            b.prices@.len() == a.prices@.len() + 1,
            b.prices@ == a.prices@.insert(i, b.prices@[i]),
            b.sizes@ == a.sizes@.insert(i, b.sizes@[i]),
            b.sizes@[i].0 > 0,
            forall|j: int| 0 <= j < i ==> better(side, #[trigger] a.prices@[j].0, b.prices@[i].0),
            forall|j: int| i <= j < a.prices@.len() ==> better(side, b.prices@[i].0, #[trigger] a.prices@[j].0),
        ensures
            b.wf(side),
            b.as_map() == a.as_map().insert(b.prices@[i].0, b.sizes@[i].0),
    {
        let p = b.prices@[i].0;
        let s = b.sizes@[i].0;
        assert forall|x: int, y: int| 0 <= x < y < b.prices@.len() implies better(side, #[trigger] b.prices@[x].0, #[trigger] b.prices@[y].0) by {
            if x < i && y < i {
                assert(better(side, a.prices@[x].0, a.prices@[y].0));
            } else if x < i && y == i {
            } else if x < i {
                assert(better(side, a.prices@[x].0, a.prices@[y - 1].0));
            } else if x == i {
                assert(better(side, p, a.prices@[y - 1].0));
            } else {
                assert(better(side, a.prices@[x - 1].0, a.prices@[y - 1].0));
            }
        }
        assert forall|x: int| 0 <= x < b.sizes@.len() implies #[trigger] b.sizes@[x].0 > 0 by {
            if x < i {
                assert(a.sizes@[x].0 > 0);
            } else if x > i {
                assert(a.sizes@[x - 1].0 > 0);
            }
        }
        assert forall|q: u32| #[trigger] b.as_map().contains_key(q) <==> a.as_map().insert(p, s).contains_key(q) by {
            assert(b.prices@[i].0 == p);
            assert(b.has_price(p));
            if b.has_price(q) && q != p {
                let j = choose|j: int| 0 <= j < b.prices@.len() && #[trigger] b.prices@[j].0 == q;
                let ja = if j < i { j } else { j - 1 };
                assert(a.prices@[ja].0 == q);
                assert(a.has_price(q));
            }
            if a.has_price(q) {
                let k = choose|k: int| 0 <= k < a.prices@.len() && #[trigger] a.prices@[k].0 == q;
                let kb = if k < i { k } else { k + 1 };
                assert(b.prices@[kb].0 == q);
                assert(b.has_price(q));
            }
        }
        assert forall|q: u32| #[trigger] b.as_map().contains_key(q) implies b.as_map()[q] == a.as_map().insert(p, s)[q] by {
            let j = choose|j: int| 0 <= j < b.prices@.len() && #[trigger] b.prices@[j].0 == q;
            b.lemma_map_at(side, j);
            if j != i {
                let ja = if j < i { j } else { j - 1 };
                a.lemma_map_at(side, ja);
            }
        }
        assert(b.as_map() =~= a.as_map().insert(p, s));
    }


    /// The best level, if the side is not empty.
    pub open spec fn top(&self) -> Option<(Price, Size)> {
        if self.prices@.len() > 0 && self.sizes@.len() > 0 {
            Some((self.prices@[0], self.sizes@[0]))
        } else {
            None
        }
    }

    /// Removes every level.
    pub fn clear_levels(&mut self)
        ensures
            final(self).prices@.len() == 0,
            final(self).sizes@.len() == 0,
            forall|side: BookSide| #[trigger] final(self).wf(side),
            final(self).as_map() == Map::<u32, u64>::empty(),
    {
        self.prices.clear();
        self.sizes.clear();
        assert(self.as_map() =~= Map::<u32, u64>::empty());
    }

    /// Keeps at most the `depth` best levels.
    pub fn truncate_levels(&mut self, side: BookSide, depth: usize)
        requires
            old(self).wf(side),
        ensures
            final(self).wf(side),
            final(self).level_seq() == old(self).level_seq().take(
                if depth < old(self).prices@.len() { depth as int } else { old(self).prices@.len() as int },
            ),
            keeps_best(old(self).as_map(), final(self).as_map(), side, depth as nat),
    {
        let ghost pre = *self;
        self.prices.truncate(depth);
        self.sizes.truncate(depth);
        proof {
            pre.lemma_dom_len(side);
            self.lemma_dom_len(side);
            assert forall|p: u32| #[trigger] self.as_map().contains_key(p)
                implies pre.as_map().contains_key(p) && pre.as_map()[p] == self.as_map()[p] by {
                let j = choose|j: int| 0 <= j < self.prices@.len() && #[trigger] self.prices@[j].0 == p;
                self.lemma_map_at(side, j);
                pre.lemma_map_at(side, j);
            }
            assert forall|p: u32, q: u32|
                #[trigger] self.as_map().contains_key(p) && #[trigger] pre.as_map().contains_key(q)
                    && !self.as_map().contains_key(q) implies better(side, p, q) by {
                let j = choose|j: int| 0 <= j < self.prices@.len() && #[trigger] self.prices@[j].0 == p;
                let i = choose|i: int| 0 <= i < pre.prices@.len() && #[trigger] pre.prices@[i].0 == q;
                if i < self.prices@.len() {
                    assert(self.prices@[i].0 == q);
                    assert(self.has_price(q));
                }
                assert(better(side, pre.prices@[j].0, pre.prices@[i].0));
            }
        }
        assert(self.level_seq() =~= old(self).level_seq().take(
            if depth < old(self).prices@.len() { depth as int } else { old(self).prices@.len() as int },
        ));
    }

    /// The best level (first price and first size), if any.
    pub fn best(&self) -> (r: Option<(Price, Size)>)
        ensures
            r == self.top(),
    {
        if self.prices.len() > 0 && self.sizes.len() > 0 {
            Some((self.prices[0], self.sizes[0]))
        } else {
            None
        }
    }

    /// The best level of a well-formed side is at the top of the book: no
    /// other price in the side is better, and an empty side has no top.
    pub proof fn lemma_top_is_best(&self, side: BookSide)
        requires
            self.wf(side),
        ensures
            self.top() is None <==> self.as_map().is_empty(),
            self.top() matches Some((p, s)) ==> {
                &&& self.as_map().contains_key(p.0)
                &&& self.as_map()[p.0] == s.0
                &&& forall|q: u32| #[trigger] self.as_map().contains_key(q) && q != p.0 ==> better(side, p.0, q)
            },
    {
        if self.prices@.len() > 0 {
            self.lemma_map_at(side, 0);
            assert(!self.as_map().is_empty());
            assert forall|q: u32| #[trigger] self.as_map().contains_key(q) && q != self.prices@[0].0 implies better(side, self.prices@[0].0, q) by {
                let j = choose|j: int| 0 <= j < self.prices@.len() && #[trigger] self.prices@[j].0 == q;
                assert(j != 0);
            }
        } else {
            assert(self.as_map() =~= Map::<u32, u64>::empty());
        }
    }

    /// A well-formed side holds as many prices as it has levels.
    pub proof fn lemma_dom_len(&self, side: BookSide)
        requires
            self.wf(side),
        ensures
            self.as_map().dom().finite(),
            self.as_map().dom().len() == self.prices@.len(),
    {
        broadcast use vstd::seq_lib::seq_to_set_is_finite;
        let s = self.prices@.map_values(|p: Price| p.0);
        assert forall|q: u32| #[trigger] self.as_map().dom().contains(q) <==> s.to_set().contains(q) by {
            if self.has_price(q) {
                let j = choose|j: int| 0 <= j < self.prices@.len() && #[trigger] self.prices@[j].0 == q;
                assert(s[j] == q);
            }
            if s.contains(q) {
                let j = choose|j: int| 0 <= j < s.len() && s[j] == q;
                assert(self.prices@[j].0 == q);
            }
        }
        assert(self.as_map().dom() =~= s.to_set());
        assert forall|i: int, j: int| 0 <= i < s.len() && 0 <= j < s.len() && i != j implies s[i] != s[j] by {
            if i < j {
                assert(better(side, self.prices@[i].0, self.prices@[j].0));
            } else {
                assert(better(side, self.prices@[j].0, self.prices@[i].0));
            }
        }
        s.unique_seq_to_set();
    }

    /// An empty side.
    pub fn new() -> (r: Self)
        ensures
            r.prices@.len() == 0,
            r.sizes@.len() == 0,
            forall|side: BookSide| #[trigger] r.wf(side),
    {
        OrderBookData { prices: Vec::new(), sizes: Vec::new() }
    }
}

} // verus!

//! The order-book indexer: resolves "exchange:symbol" keys to symbol ids and
//! keeps, per symbol, a bid side and an ask side of price levels.

use vstd::prelude::*;
use vstd::hash_map::StringHashMap;
use crate::levels::{keeps_best, BookSide, OrderBookData, Price, Size};
use crate::slots::{
    canonical_key, key_index, side_get, side_insert, side_remove, side_slots, side_with_capacity, symbol_slots, symbols_len,
    symbols_insert, symbols_with_capacity, OrderBookMeta, SideSlots, SymbolSlots,
};

verus! {

/// Identifier of a symbol's book: the FFI form of its slot-map key.
#[derive(Debug, Clone, Copy, PartialEq, Eq, Structural, Hash)]
pub struct SymbolId(pub u64);

/// The key under which a symbol of an exchange is indexed: `exchange:symbol`.
pub open spec fn symbol_key_of(exchange: Seq<char>, symbol: Seq<char>) -> Seq<char> {
    exchange + seq![':'] + symbol
}

/// `post` is `pre` with the entry at `c` possibly changed and nothing else.
pub open spec fn same_except(pre: Map<u64, OrderBookData>, post: Map<u64, OrderBookData>, c: u64) -> bool {
    &&& post.dom() == pre.dom()
    &&& forall|f: u64| #[trigger] pre.contains_key(f) && f != c ==> post[f] == pre[f]
}

/// Entries other than `c` agree once `c` is taken out of both maps.
pub proof fn lemma_same_except_remove(pre: Map<u64, OrderBookData>, post: Map<u64, OrderBookData>, c: u64)
    requires
        same_except(pre, post, c),
    ensures
        post.remove(c) == pre.remove(c),
{
    assert forall|f: u64| #[trigger] post.remove(c).contains_key(f) implies post.remove(c)[f] == pre.remove(c)[f] by {
        assert(pre.contains_key(f));
    }
    assert(post.remove(c) =~= pre.remove(c));
}

/// The size map a side holds after setting `price` to `size`.
pub open spec fn level_update(m: Map<u32, u64>, price: u32, size: u64) -> Map<u32, u64> {
    if size == 0 {
        m.remove(price)
    } else {
        m.insert(price, size)
    }
}

/// Symbol books indexed by a slot map, with a resolver from symbol keys.
pub struct OrderBookIndexer {
    pub id_resolver: StringHashMap<SymbolId>,
    pub symbols: SymbolSlots,
    pub bids: SideSlots,
    pub asks: SideSlots,
}

impl OrderBookIndexer {
    pub open spec fn symbol_map(&self) -> Map<u64, OrderBookMeta> {
        symbol_slots(self.symbols)
    }

    pub open spec fn bid_map(&self) -> Map<u64, OrderBookData> {
        side_slots(self.bids)
    }

    pub open spec fn ask_map(&self) -> Map<u64, OrderBookData> {
        side_slots(self.asks)
    }

    /// The invariant kept by every operation: every symbol has a bid and an
    /// ask side, each side is a well-formed level book, live keys use distinct
    /// slot indices, and the resolver maps distinct keys to distinct live ids.
    pub open spec fn wf(&self) -> bool {
        &&& self.symbol_map().dom().finite()
        &&& forall|f: u64| #[trigger] self.symbol_map().contains_key(f)
            ==> canonical_key(f) == f && key_index(f) != 0xFFFF_FFFF
        &&& forall|f: u64, g: u64|
            #[trigger] self.symbol_map().contains_key(f) && #[trigger] self.symbol_map().contains_key(g)
                && key_index(f) == key_index(g) ==> f == g
        &&& self.bid_map().dom() == self.symbol_map().dom()
        &&& self.ask_map().dom() == self.symbol_map().dom()
        &&& forall|f: u64| #[trigger] self.bid_map().contains_key(f) ==> self.bid_map()[f].wf(BookSide::Bid)
        &&& forall|f: u64| #[trigger] self.ask_map().contains_key(f) ==> self.ask_map()[f].wf(BookSide::Ask)
        &&& forall|k: Seq<char>| #[trigger] self.id_resolver@.contains_key(k)
            ==> self.symbol_map().contains_key(self.id_resolver@[k].0)
        &&& forall|k1: Seq<char>, k2: Seq<char>|
            #[trigger] self.id_resolver@.contains_key(k1) && #[trigger] self.id_resolver@.contains_key(k2) && k1 != k2
                ==> self.id_resolver@[k1] != self.id_resolver@[k2]
    }

    /// `exchange:symbol`.
    pub fn symbol_key(exchange: &str, symbol: &str) -> (r: String)
        ensures
            r@ == symbol_key_of(exchange@, symbol@),
    {
        let mut key = exchange.to_owned();
        proof { reveal_strlit(":"); }
        key.append(":");
        key.append(symbol);
        key
    }

    /// The id of `exchange:symbol`, creating an empty book for it when the key
    /// is new. The slot map panics once it holds 2^32 - 2 symbols.
    pub fn new_book(&mut self, exchange: String, symbol: String) -> (r: SymbolId)
        requires
            old(self).wf(),
            old(self).symbol_map().len() < 0xFFFF_FFFE,
        ensures
            final(self).wf(),
            final(self).id_resolver@ == old(self).id_resolver@.insert(symbol_key_of(exchange@, symbol@), r),
            old(self).id_resolver@.contains_key(symbol_key_of(exchange@, symbol@)) ==> {
                &&& r == old(self).id_resolver@[symbol_key_of(exchange@, symbol@)]
                &&& *final(self) == *old(self)
            },
            !old(self).id_resolver@.contains_key(symbol_key_of(exchange@, symbol@)) ==> {
                &&& !old(self).symbol_map().contains_key(r.0)
                &&& final(self).id_resolver@ == old(self).id_resolver@.insert(symbol_key_of(exchange@, symbol@), r)
                &&& final(self).symbol_map() == old(self).symbol_map().insert(r.0, OrderBookMeta { exchange })
                &&& final(self).bid_map().dom() == old(self).bid_map().dom().insert(r.0)
                &&& final(self).ask_map().dom() == old(self).ask_map().dom().insert(r.0)
                &&& final(self).bid_map()[r.0].prices@.len() == 0
                &&& final(self).ask_map()[r.0].prices@.len() == 0
                &&& forall|f: u64| #[trigger] old(self).bid_map().contains_key(f) ==> final(self).bid_map()[f] == old(self).bid_map()[f]
                &&& forall|f: u64| #[trigger] old(self).ask_map().contains_key(f) ==> final(self).ask_map()[f] == old(self).ask_map()[f]
            },
    {
        let key = Self::symbol_key(exchange.as_str(), symbol.as_str());
        match self.id_resolver.get(key.as_str()) {
            Some(existing_id) => {
                return *existing_id;
            },
            None => {},
        }
        let ghost pre = *self;
        let ghost meta = OrderBookMeta { exchange };
        let id = symbols_insert(&mut self.symbols, OrderBookMeta { exchange });
        assert(self.symbol_map() == pre.symbol_map().insert(id, meta));
        let _ = side_insert(&mut self.bids, id, OrderBookData::new());
        let _ = side_insert(&mut self.asks, id, OrderBookData::new());
        self.id_resolver.insert(key, SymbolId(id));
        proof {
            assert forall|k: Seq<char>| #[trigger] self.id_resolver@.contains_key(k)
                implies self.symbol_map().contains_key(self.id_resolver@[k].0) by {
                if k != key@ {
                    assert(pre.id_resolver@.contains_key(k));
                }
            }
            assert forall|k1: Seq<char>, k2: Seq<char>|
                #[trigger] self.id_resolver@.contains_key(k1) && #[trigger] self.id_resolver@.contains_key(k2) && k1 != k2
                implies self.id_resolver@[k1] != self.id_resolver@[k2] by {
                if k1 != key@ && k2 != key@ {
                    assert(pre.id_resolver@.contains_key(k1) && pre.id_resolver@.contains_key(k2));
                } else if k1 == key@ {
                    assert(pre.id_resolver@.contains_key(k2));
                    assert(pre.symbol_map().contains_key(pre.id_resolver@[k2].0));
                } else {
                    assert(pre.id_resolver@.contains_key(k1));
                    assert(pre.symbol_map().contains_key(pre.id_resolver@[k1].0));
                }
            }
            assert forall|f: u64, g: u64|
                #[trigger] self.symbol_map().contains_key(f) && #[trigger] self.symbol_map().contains_key(g)
                    && key_index(f) == key_index(g) implies f == g by {
                if f != id && g != id {
                    assert(pre.symbol_map().contains_key(f) && pre.symbol_map().contains_key(g));
                } else if f == id && g != id {
                    assert(pre.symbol_map().contains_key(g));
                } else if f != id && g == id {
                    assert(pre.symbol_map().contains_key(f));
                }
            }
            assert(self.bid_map().dom() =~= self.symbol_map().dom());
            assert(self.ask_map().dom() =~= self.symbol_map().dom());
        }
        SymbolId(id)
    }

    /// Removes every level of both sides of the book `symbol_idx`.
    pub fn clear_book(&mut self, symbol_idx: SymbolId)
        requires
            old(self).wf(),
        ensures
            final(self).wf(),
            final(self).id_resolver@ == old(self).id_resolver@,
            final(self).symbol_map() == old(self).symbol_map(),
            same_except(old(self).bid_map(), final(self).bid_map(), canonical_key(symbol_idx.0)),
            same_except(old(self).ask_map(), final(self).ask_map(), canonical_key(symbol_idx.0)),
            old(self).bid_map().contains_key(canonical_key(symbol_idx.0))
                ==> final(self).bid_map()[canonical_key(symbol_idx.0)].as_map() == Map::<u32, u64>::empty(),
            old(self).ask_map().contains_key(canonical_key(symbol_idx.0))
                ==> final(self).ask_map()[canonical_key(symbol_idx.0)].as_map() == Map::<u32, u64>::empty(),
    {
        if let Some(mut book) = side_remove(&mut self.bids, symbol_idx.0) {
            book.clear_levels();
            let _ = side_insert(&mut self.bids, symbol_idx.0, book);
            assert(self.bid_map().dom() =~= old(self).bid_map().dom());
        }
        if let Some(mut book) = side_remove(&mut self.asks, symbol_idx.0) {
            book.clear_levels();
            let _ = side_insert(&mut self.asks, symbol_idx.0, book);
            assert(self.ask_map().dom() =~= old(self).ask_map().dom());
        }
        assert(self.bid_map().dom() =~= old(self).bid_map().dom());
        assert(self.ask_map().dom() =~= old(self).ask_map().dom());
    }

    /// Sets the size at `price` on one side of the book `symbol_idx`
    /// (a zero size removes the level). Unknown ids are ignored.
    pub fn appy_book_update(&mut self, symbol_idx: SymbolId, price: Price, new_size: Size, side: BookSide)
        requires
            old(self).wf(),
        ensures
            final(self).wf(),
            final(self).id_resolver@ == old(self).id_resolver@,
            final(self).symbol_map() == old(self).symbol_map(),
            side == BookSide::Bid ==> {
                &&& same_except(old(self).bid_map(), final(self).bid_map(), canonical_key(symbol_idx.0))
                &&& final(self).ask_map() == old(self).ask_map()
                &&& old(self).bid_map().contains_key(canonical_key(symbol_idx.0))
                    ==> final(self).bid_map()[canonical_key(symbol_idx.0)].as_map()
                        == level_update(old(self).bid_map()[canonical_key(symbol_idx.0)].as_map(), price.0, new_size.0)
            },
            side == BookSide::Ask ==> {
                &&& same_except(old(self).ask_map(), final(self).ask_map(), canonical_key(symbol_idx.0))
                &&& final(self).bid_map() == old(self).bid_map()
                &&& old(self).ask_map().contains_key(canonical_key(symbol_idx.0))
                    ==> final(self).ask_map()[canonical_key(symbol_idx.0)].as_map()
                        == level_update(old(self).ask_map()[canonical_key(symbol_idx.0)].as_map(), price.0, new_size.0)
            },
    {
        match side {
            BookSide::Bid => {
                if let Some(mut book) = side_remove(&mut self.bids, symbol_idx.0) {
                    book.apply_level(BookSide::Bid, price, new_size);
                    let _ = side_insert(&mut self.bids, symbol_idx.0, book);
                }
                assert(self.bid_map().dom() =~= old(self).bid_map().dom());
            },
            BookSide::Ask => {
                if let Some(mut book) = side_remove(&mut self.asks, symbol_idx.0) {
                    book.apply_level(BookSide::Ask, price, new_size);
                    let _ = side_insert(&mut self.asks, symbol_idx.0, book);
                }
                assert(self.ask_map().dom() =~= old(self).ask_map().dom());
            },
        }
    }

    /// Same as `appy_book_update`.
    pub fn apply_book_update(&mut self, symbol_idx: SymbolId, price: Price, new_size: Size, side: BookSide)
        requires
            old(self).wf(),
        ensures
            final(self).wf(),
            final(self).id_resolver@ == old(self).id_resolver@,
            final(self).symbol_map() == old(self).symbol_map(),
            side == BookSide::Bid ==> {
                &&& same_except(old(self).bid_map(), final(self).bid_map(), canonical_key(symbol_idx.0))
                &&& final(self).ask_map() == old(self).ask_map()
                &&& old(self).bid_map().contains_key(canonical_key(symbol_idx.0))
                    ==> final(self).bid_map()[canonical_key(symbol_idx.0)].as_map()
                        == level_update(old(self).bid_map()[canonical_key(symbol_idx.0)].as_map(), price.0, new_size.0)
            },
            side == BookSide::Ask ==> {
                &&& same_except(old(self).ask_map(), final(self).ask_map(), canonical_key(symbol_idx.0))
                &&& final(self).bid_map() == old(self).bid_map()
                &&& old(self).ask_map().contains_key(canonical_key(symbol_idx.0))
                    ==> final(self).ask_map()[canonical_key(symbol_idx.0)].as_map()
                        == level_update(old(self).ask_map()[canonical_key(symbol_idx.0)].as_map(), price.0, new_size.0)
            },
    {
        self.appy_book_update(symbol_idx, price, new_size, side);
    }

    /// Keeps at most `depth` levels on each side of the book `symbol_idx`.
    pub fn truncate_book_depth(&mut self, symbol_idx: SymbolId, depth: usize)
        requires
            old(self).wf(),
        ensures
            final(self).wf(),
            final(self).id_resolver@ == old(self).id_resolver@,
            final(self).symbol_map() == old(self).symbol_map(),
            same_except(old(self).bid_map(), final(self).bid_map(), canonical_key(symbol_idx.0)),
            same_except(old(self).ask_map(), final(self).ask_map(), canonical_key(symbol_idx.0)),
            old(self).bid_map().contains_key(canonical_key(symbol_idx.0)) ==> ({
                let pre = old(self).bid_map()[canonical_key(symbol_idx.0)];
                &&& final(self).bid_map()[canonical_key(symbol_idx.0)].level_seq()
                    == pre.level_seq().take(if depth < pre.prices@.len() { depth as int } else { pre.prices@.len() as int })
                &&& keeps_best(pre.as_map(), final(self).bid_map()[canonical_key(symbol_idx.0)].as_map(), BookSide::Bid, depth as nat)
            }),
            old(self).ask_map().contains_key(canonical_key(symbol_idx.0)) ==> ({
                let pre = old(self).ask_map()[canonical_key(symbol_idx.0)];
                &&& final(self).ask_map()[canonical_key(symbol_idx.0)].level_seq()
                    == pre.level_seq().take(if depth < pre.prices@.len() { depth as int } else { pre.prices@.len() as int })
                &&& keeps_best(pre.as_map(), final(self).ask_map()[canonical_key(symbol_idx.0)].as_map(), BookSide::Ask, depth as nat)
            }),
    {
        if let Some(mut book) = side_remove(&mut self.bids, symbol_idx.0) {
            book.truncate_levels(BookSide::Bid, depth);
            let _ = side_insert(&mut self.bids, symbol_idx.0, book);
        }
        assert(self.bid_map().dom() =~= old(self).bid_map().dom());
        if let Some(mut book) = side_remove(&mut self.asks, symbol_idx.0) {
            book.truncate_levels(BookSide::Ask, depth);
            let _ = side_insert(&mut self.asks, symbol_idx.0, book);
        }
        assert(self.ask_map().dom() =~= old(self).ask_map().dom());
    }

    /// The best bid of the book indexed under `symbol_key`, if it has one.
    pub fn best_bid(&self, symbol_key: &str) -> (r: Option<(Price, Size)>)
        requires
            self.wf(),
        ensures
            r == (if self.id_resolver@.contains_key(symbol_key@) {
                self.bid_map()[self.id_resolver@[symbol_key@].0].top()
            } else {
                None
            }),
    {
        match self.id_resolver.get(symbol_key) {
            None => None,
            Some(token) => match side_get(&self.bids, token.0) {
                None => None,
                Some(book) => book.best(),
            },
        }
    }

    /// The best ask of the book indexed under `symbol_key`, if it has one.
    pub fn best_ask(&self, symbol_key: &str) -> (r: Option<(Price, Size)>)
        requires
            self.wf(),
        ensures
            r == (if self.id_resolver@.contains_key(symbol_key@) {
                self.ask_map()[self.id_resolver@[symbol_key@].0].top()
            } else {
                None
            }),
    {
        match self.id_resolver.get(symbol_key) {
            None => None,
            Some(token) => match side_get(&self.asks, token.0) {
                None => None,
                Some(book) => book.best(),
            },
        }
    }

    /// Number of symbols indexed.
    pub fn symbol_count(&self) -> (r: usize)
        requires
            self.wf(),
        ensures
            r == self.symbol_map().len(),
    {
        symbols_len(&self.symbols)
    }

    /// An indexer with no symbols.
    pub fn new() -> (r: Self)
        ensures
            r.wf(),
            r.id_resolver@ == Map::<Seq<char>, SymbolId>::empty(),
            r.symbol_map() == Map::<u64, OrderBookMeta>::empty(),
    {
        OrderBookIndexer {
            id_resolver: StringHashMap::new(),
            symbols: symbols_with_capacity(200),
            bids: side_with_capacity(200),
            asks: side_with_capacity(200),
        }
    }
}

} // verus!

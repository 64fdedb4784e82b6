//! A single-instrument L2 book keyed by decimal price, and the actor that
//! keeps it in step with one exchange adapter: snapshots, sequence checks,
//! integrity checks and periodic snapshots of the top of the book.

use vstd::prelude::*;
use crate::dbook::{map_modify, top_columns, top_columns_of, DecimalLevels};
use crate::decimal::DecimalParts;
use crate::models::BookState;
use crate::text::{parse_i64, parsed_i64};

verus! {

/// A book as a value: exchange, exchange time text, last sequence id,
/// instrument, and the bid and ask maps from price value to entry.
pub type BookView = (
    Seq<char>,
    Seq<char>,
    u64,
    Seq<char>,
    Map<int, (DecimalParts, DecimalParts)>,
    Map<int, (DecimalParts, DecimalParts)>,
);

/// An L2 book of one instrument.
#[derive(Debug)]
pub struct OrderBookL2 {
    pub exchange: String,
    pub ts: String,
    pub las_seq_id: u64,
    pub instrument_id: String,
    pub bids: DecimalLevels,
    pub asks: DecimalLevels,
}

impl OrderBookL2 {
    /// Both sides are well formed.
    pub open spec fn wf(&self) -> bool {
        self.bids.wf() && self.asks.wf()
    }

    /// The book as a value.
    pub open spec fn view_of(&self) -> BookView {
        (self.exchange@, self.ts@, self.las_seq_id, self.instrument_id@, self.bids.as_map(), self.asks.as_map())
    }

    /// An empty book for `exchange`.
    pub fn new(exchange: String) -> (r: Self)
        ensures
            r.wf(),
            r.exchange == exchange,
            r.ts@ == Seq::<char>::empty(),
            r.las_seq_id == 0,
            r.instrument_id@ == Seq::<char>::empty(),
            r.bids.as_map() == Map::<int, (DecimalParts, DecimalParts)>::empty(),
            r.asks.as_map() == Map::<int, (DecimalParts, DecimalParts)>::empty(),
    {
        OrderBookL2 {
            exchange,
            ts: String::new(),
            las_seq_id: 0,
            instrument_id: String::new(),
            bids: DecimalLevels::new(),
            asks: DecimalLevels::new(),
        }
    }

    /// Sets a bid level: a zero size removes the price.
    pub fn modify_bid(&mut self, price: DecimalParts, size: DecimalParts)
        requires
            old(self).wf(),
            price.wf(),
            size.wf(),
        ensures
            final(self).wf(),
            final(self).view_of() == (
                old(self).exchange@,
                old(self).ts@,
                old(self).las_seq_id,
                old(self).instrument_id@,
                map_modify(old(self).bids.as_map(), price, size),
                old(self).asks.as_map(),
            ),
    {
        self.bids.modify(price, size);
    }

    /// Sets an ask level: a zero size removes the price.
    pub fn modify_asks(&mut self, price: DecimalParts, size: DecimalParts)
        requires
            old(self).wf(),
            price.wf(),
            size.wf(),
        ensures
            final(self).wf(),
            final(self).view_of() == (
                old(self).exchange@,
                old(self).ts@,
                old(self).las_seq_id,
                old(self).instrument_id@,
                old(self).bids.as_map(),
                map_modify(old(self).asks.as_map(), price, size),
            ),
    {
        self.asks.modify(price, size);
    }
}

/// What an exchange adapter does with its parsed book messages.
pub trait ExchangeAdapter {
    type InputBookData;

    /// The adapter's exchange name.
    spec fn name_spec(&self) -> Seq<char>;

    /// The message is a full book.
    spec fn snapshot_spec(&self, msg: &Self::InputBookData) -> bool;

    /// The message's sequence id (0 when it has none).
    spec fn seq_id_spec(&self, msg: &Self::InputBookData) -> u64;

    /// The sequence id the message follows (0 when it has none).
    spec fn prev_seq_id_spec(&self, msg: &Self::InputBookData) -> u64;

    /// The book after the message is applied.
    spec fn applied(&self, pre: BookView, msg: &Self::InputBookData) -> BookView;

    /// The book passes the exchange's integrity check for the message.
    spec fn integrity_spec(&self, core: BookView, msg: &Self::InputBookData) -> bool;

    fn exchange_name(&self) -> (r: &'static str)
        ensures
            r@ == self.name_spec(),
    ;

    fn is_snapshot(&self, msg: &Self::InputBookData) -> (r: bool)
        ensures
            r == self.snapshot_spec(msg),
    ;

    fn get_seq_id(&self, msg: &Self::InputBookData) -> (r: u64)
        ensures
            r == self.seq_id_spec(msg),
    ;

    fn get_prev_seq_id(&self, msg: &Self::InputBookData) -> (r: u64)
        ensures
            r == self.prev_seq_id_spec(msg),
    ;

    fn apply(&self, core: &mut OrderBookL2, msg: &Self::InputBookData)
        requires
            old(core).wf(),
        ensures
            final(core).wf(),
            final(core).view_of() == self.applied(old(core).view_of(), msg),
    ;

    fn verify_integrity(&self, core: &OrderBookL2, msg: &Self::InputBookData) -> (r: bool)
        requires
            core.wf(),
        ensures
            r == self.integrity_spec(core.view_of(), msg),
    ;
}

/// An audit record of the book actor.
#[derive(Debug)]
#[allow(inconsistent_fields)]
pub enum BookAuditEvent {
    SeqIdGap { symbol: String, expected: u64, actual: u64 },
    CheckSumFailure { symbol: String, expected: i32, actual: i32 },
    IngestFail { details: Option<String> },
}

/// A snapshot of the top of a decimal book: the instrument, exchange time
/// (nanoseconds), local time, and bid and ask columns `[prices, sizes]`.
#[derive(Debug)]
pub struct BookSnapShot {
    pub instrument_id: String,
    pub exchange_ts: i64,
    pub timestamp: i64,
    pub bids: Vec<Vec<DecimalParts>>,
    pub asks: Vec<Vec<DecimalParts>>,
}

/// What the actor is asked to do: apply a message (`None` when it did not
/// parse) or take a snapshot.
pub enum OrderBookCommand<M> {
    Update(Option<M>),
    TakeSnapShot,
}

/// What the actor asks its surroundings to do after a command.
pub struct ActorOutput {
    pub audit: Option<BookAuditEvent>,
    pub restart: Option<String>,
    pub snapshot: Option<BookSnapShot>,
}

/// Levels per side in an actor snapshot.
pub const ACTOR_SNAPSHOT_DEPTH: usize = 50;

/// The exchange time of a book in nanoseconds, when its millisecond text
/// parses.
pub open spec fn exchange_ts_of(ts: Seq<char>) -> Option<i64> {
    match parsed_i64(ts) {
        Some(v) => Some(v.wrapping_mul(1_000_000)),
        None => None,
    }
}

/// `s` is the snapshot of `book` at local time `now`, with at most `depth`
/// levels per side.
pub open spec fn is_book_snapshot(s: BookSnapShot, instrument_id: Seq<char>, ts: Seq<char>, bids: DecimalLevels, asks: DecimalLevels, depth: nat, now: i64) -> bool {
    &&& s.instrument_id@ == instrument_id
    &&& exchange_ts_of(ts) == Some(s.exchange_ts)
    &&& s.timestamp == now
    &&& s.bids@.len() == 2 && s.asks@.len() == 2
    &&& top_columns_of(bids, asks, depth, s.bids@[0]@, s.bids@[1]@, s.asks@[0]@, s.asks@[1]@)
}

/// Builds the snapshot of a book when its exchange time parses.
pub fn book_snapshot(instrument_id: &String, ts: &String, bids: &DecimalLevels, asks: &DecimalLevels, depth: usize, now: i64) -> (r: Option<BookSnapShot>)
    requires
        bids.wf(),
        asks.wf(),
    ensures
        r is Some <==> parsed_i64(ts@) is Some,
        r matches Some(s) ==> is_book_snapshot(s, instrument_id@, ts@, *bids, *asks, depth as nat, now),
{
    let (bp, bs, ap, asz) = top_columns(bids, asks, depth);
    match parse_i64(ts.as_str()) {
        Some(value) => {
            let exchange_ts = value.wrapping_mul(1_000_000);
            let mut b: Vec<Vec<DecimalParts>> = Vec::new();
            b.push(bp);
            b.push(bs);
            let mut a: Vec<Vec<DecimalParts>> = Vec::new();
            a.push(ap);
            a.push(asz);
            Some(BookSnapShot { instrument_id: instrument_id.clone(), exchange_ts, timestamp: now, bids: b, asks: a })
        },
        None => None,
    }
}

/// The actor of one instrument's book.
pub struct OrderBookActor<A: ExchangeAdapter> {
    pub adapter: A,
    pub book_core: OrderBookL2,
    pub state: BookState,
}

impl<A: ExchangeAdapter> OrderBookActor<A> {
    /// An actor with an empty book, awaiting a snapshot.
    pub fn new(adapter: A) -> (r: Self)
        ensures
            r.book_core.wf(),
            r.state == BookState::AwaitingSnapshot,
            r.book_core.exchange@ == adapter.name_spec(),
            r.book_core.bids.as_map() == Map::<int, (DecimalParts, DecimalParts)>::empty(),
            r.book_core.asks.as_map() == Map::<int, (DecimalParts, DecimalParts)>::empty(),
            r.adapter == adapter,
    {
        let name = adapter.exchange_name().to_owned();
        OrderBookActor { adapter, book_core: OrderBookL2::new(name), state: BookState::AwaitingSnapshot }
    }

    /// Handles one command (`process`). An update that parsed is applied:
    /// awaiting a snapshot, the book is emptied first and becomes synced;
    /// synced, a set sequence id other than the book's last is audited as a
    /// gap and corrupts the book, and every hundredth sequence id the
    /// adapter's integrity check decides the state; corrupted, the update
    /// is dropped, a restart is requested and a snapshot awaited. A
    /// snapshot command with a local time publishes the top 50 levels when
    /// the book's exchange time parses.
    pub fn process(&mut self, command: OrderBookCommand<A::InputBookData>, now: Option<i64>) -> (out: ActorOutput)
        requires
            old(self).book_core.wf(),
        ensures
            final(self).book_core.wf(),
            final(self).adapter == old(self).adapter,
            match command {
                OrderBookCommand::Update(None) => {
                    &&& final(self).book_core.view_of() == old(self).book_core.view_of()
                    &&& final(self).state == old(self).state
                    &&& out.audit is None && out.restart is None && out.snapshot is None
                },
                OrderBookCommand::Update(Some(msg)) => match old(self).state {
                    BookState::AwaitingSnapshot => {
                        let pre = old(self).book_core.view_of();
                        &&& final(self).book_core.view_of() == old(self).adapter.applied(
                            (pre.0, pre.1, pre.2, pre.3, Map::empty(), Map::empty()),
                            &msg,
                        )
                        &&& final(self).state == BookState::Synced
                        &&& out.audit is None && out.restart is None && out.snapshot is None
                    },
                    BookState::Synced => {
                        let pre = old(self).book_core.view_of();
                        let incoming = old(self).adapter.seq_id_spec(&msg);
                        let gap = incoming != 0 && incoming != pre.2;
                        let post = old(self).adapter.applied(pre, &msg);
                        &&& final(self).book_core.view_of() == post
                        &&& final(self).state == (if post.2 % 100 == 0 {
                            if old(self).adapter.integrity_spec(post, &msg) {
                                BookState::Synced
                            } else {
                                BookState::Corrupted
                            }
                        } else if gap {
                            BookState::Corrupted
                        } else {
                            BookState::Synced
                        })
                        &&& (gap ==> (out.audit matches Some(BookAuditEvent::SeqIdGap { symbol, expected, actual })
                            && symbol@ == pre.3 && expected == incoming && actual == pre.2))
                        &&& (!gap ==> out.audit is None)
                        &&& out.restart is None && out.snapshot is None
                    },
                    BookState::Corrupted => {
                        &&& final(self).book_core.view_of() == old(self).book_core.view_of()
                        &&& final(self).state == BookState::AwaitingSnapshot
                        &&& out.restart matches Some(s) && s@ == old(self).book_core.instrument_id@
                        &&& out.audit is None && out.snapshot is None
                    },
                },
                OrderBookCommand::TakeSnapShot => {
                    &&& final(self).book_core.view_of() == old(self).book_core.view_of()
                    &&& final(self).state == old(self).state
                    &&& out.audit is None && out.restart is None
                    &&& (out.snapshot is Some <==> now is Some && parsed_i64(old(self).book_core.ts@) is Some)
                    &&& out.snapshot matches Some(s) ==> is_book_snapshot(
                        s,
                        old(self).book_core.instrument_id@,
                        old(self).book_core.ts@,
                        old(self).book_core.bids,
                        old(self).book_core.asks,
                        ACTOR_SNAPSHOT_DEPTH as nat,
                        now->0,
                    )
                },
            },
    {
        match command {
            OrderBookCommand::Update(None) => ActorOutput { audit: None, restart: None, snapshot: None },
            OrderBookCommand::Update(Some(msg)) => {
                match self.state {
                    BookState::AwaitingSnapshot => {
                        self.book_core.bids.clear();
                        self.book_core.asks.clear();
                        self.adapter.apply(&mut self.book_core, &msg);
                        self.state = BookState::Synced;
                        ActorOutput { audit: None, restart: None, snapshot: None }
                    },
                    BookState::Synced => {
                        let mut state = BookState::Synced;
                        let mut audit: Option<BookAuditEvent> = None;
                        let incoming = self.adapter.get_seq_id(&msg);
                        if incoming != 0 && incoming != self.book_core.las_seq_id {
                            audit = Some(BookAuditEvent::SeqIdGap {
                                symbol: self.book_core.instrument_id.clone(),
                                expected: incoming,
                                actual: self.book_core.las_seq_id,
                            });
                            state = BookState::Corrupted;
                        }
                        self.adapter.apply(&mut self.book_core, &msg);
                        if self.book_core.las_seq_id % 100 == 0 {
                            state = if self.adapter.verify_integrity(&self.book_core, &msg) {
                                BookState::Synced
                            } else {
                                BookState::Corrupted
                            };
                        }
                        self.state = state;
                        ActorOutput { audit, restart: None, snapshot: None }
                    },
                    BookState::Corrupted => {
                        let restart = self.book_core.instrument_id.clone();
                        self.state = BookState::AwaitingSnapshot;
                        ActorOutput { audit: None, restart: Some(restart), snapshot: None }
                    },
                }
            },
            OrderBookCommand::TakeSnapShot => {
                let snapshot = match now {
                    Some(t) => book_snapshot(
                        &self.book_core.instrument_id,
                        &self.book_core.ts,
                        &self.book_core.bids,
                        &self.book_core.asks,
                        ACTOR_SNAPSHOT_DEPTH,
                        t,
                    ),
                    None => None,
                };
                ActorOutput { audit: None, restart: None, snapshot }
            },
        }
    }
}

} // verus!

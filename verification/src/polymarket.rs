//! Polymarket CLOB market channel: book snapshots and price changes applied
//! to an L2 book of one asset.

use vstd::prelude::*;
use crate::dbook::map_modify;
use crate::decimal::{decimal_or_zero, parse_decimal_or_zero, DecimalParts};
use crate::l2book::{BookView, ExchangeAdapter, OrderBookL2};
use crate::text::str_eq;

verus! {

/// A message of the market channel.
#[derive(Debug)]
pub enum PolyCLOBMessage {
    Snapshot(PolyOrderBookL2Snapshot),
    L2Tick(PolyOrderBookL2Tick),
    LastTrade(PolyLastTradePrice),
}

/// A full book of one asset.
#[derive(Debug)]
pub struct PolyOrderBookL2Snapshot {
    pub market: String,
    pub asset_id: String,
    pub timestamp: String,
    pub hash: String,
    pub bids: Vec<PolyOrderBookSummary>,
    pub asks: Vec<PolyOrderBookSummary>,
    pub event_type: String,
    pub last_trade_price: String,
}

/// One level of a book: price and size as decimal strings.
#[derive(Debug)]
pub struct PolyOrderBookSummary {
    pub price: String,
    pub size: String,
}

/// Price changes of a market.
#[derive(Debug)]
pub struct PolyOrderBookL2Tick {
    pub market: String,
    pub price_changes: Vec<PolyOrderBookTick>,
    pub timestamp: String,
    pub event_type: String,
}

/// One price change: asset, price, new size, side (`BUY` or `SELL`).
#[derive(Debug)]
pub struct PolyOrderBookTick {
    pub asset_id: String,
    pub price: String,
    pub size: String,
    pub side: String,
    pub hash: String,
    pub best_bid: String,
    pub best_ask: String,
}

/// A last trade price notice.
#[derive(Debug)]
pub struct PolyLastTradePrice {
    pub market: String,
    pub asset_id: String,
    pub price: String,
    pub size: String,
    pub fee_rate_bps: String,
    pub side: String,
    pub timestamp: String,
    pub event_type: String,
    pub transaction_hash: String,
}

/// The Polymarket book adapter.
pub struct PolyCLOBAdapter;

/// The Polymarket connection adapter.
pub struct PolyCLOBConnectorAdapter;

/// `m` after each level of `levels` in turn (a size that parses to zero
/// removes the price; a string that does not parse counts as zero).
pub open spec fn summaries_applied(m: Map<int, (DecimalParts, DecimalParts)>, levels: Seq<PolyOrderBookSummary>) -> Map<
    int,
    (DecimalParts, DecimalParts),
>
    decreases levels.len(),
{
    if levels.len() == 0 {
        m
    } else {
        map_modify(
            summaries_applied(m, levels.drop_last()),
            decimal_or_zero(levels.last().price@),
            decimal_or_zero(levels.last().size@),
        )
    }
}

/// Bids and asks after each price change of `ticks` in turn: changes of
/// other assets and of other sides than `BUY` and `SELL` are skipped.
pub open spec fn ticks_applied(
    bids: Map<int, (DecimalParts, DecimalParts)>,
    asks: Map<int, (DecimalParts, DecimalParts)>,
    ticks: Seq<PolyOrderBookTick>,
    asset: Seq<char>,
) -> (Map<int, (DecimalParts, DecimalParts)>, Map<int, (DecimalParts, DecimalParts)>)
    decreases ticks.len(),
{
    if ticks.len() == 0 {
        (bids, asks)
    } else {
        let (b, a) = ticks_applied(bids, asks, ticks.drop_last(), asset);
        let t = ticks.last();
        if t.asset_id@ != asset {
            (b, a)
        } else if t.side@ == "BUY"@ {
            (map_modify(b, decimal_or_zero(t.price@), decimal_or_zero(t.size@)), a)
        } else if t.side@ == "SELL"@ {
            (b, map_modify(a, decimal_or_zero(t.price@), decimal_or_zero(t.size@)))
        } else {
            (b, a)
        }
    }
}

/// The book after a message: a snapshot of the book's asset applies its
/// levels, price changes apply those of the book's asset, anything else
/// leaves the book as it is.
pub open spec fn poly_applied(pre: BookView, msg: PolyCLOBMessage) -> BookView {
    match msg {
        PolyCLOBMessage::Snapshot(s) => if pre.3 != s.asset_id@ {
            pre
        } else {
            (pre.0, pre.1, pre.2, pre.3, summaries_applied(pre.4, s.bids@), summaries_applied(pre.5, s.asks@))
        },
        PolyCLOBMessage::L2Tick(t) => {
            let (b, a) = ticks_applied(pre.4, pre.5, t.price_changes@, pre.3);
            (pre.0, pre.1, pre.2, pre.3, b, a)
        },
        PolyCLOBMessage::LastTrade(_) => pre,
    }
}

/// Applies `levels` to the bids (`bids`) or the asks.
fn apply_summaries(core: &mut OrderBookL2, levels: &Vec<PolyOrderBookSummary>, bids: bool)
    requires
        old(core).wf(),
    ensures
        final(core).wf(),
        final(core).view_of() == (if bids {
            (
                old(core).exchange@,
                old(core).ts@,
                old(core).las_seq_id,
                old(core).instrument_id@,
                summaries_applied(old(core).bids.as_map(), levels@),
                old(core).asks.as_map(),
            )
        } else {
            (
                old(core).exchange@,
                old(core).ts@,
                old(core).las_seq_id,
                old(core).instrument_id@,
                old(core).bids.as_map(),
                summaries_applied(old(core).asks.as_map(), levels@),
            )
        }),
{
    let ghost pre = old(core).view_of();
    let mut i: usize = 0;
    while i < levels.len()
        invariant
            i <= levels.len(),
            core.wf(),
            core.exchange@ == pre.0,
            core.ts@ == pre.1,
            core.las_seq_id == pre.2,
            core.instrument_id@ == pre.3,
            bids ==> core.bids.as_map() == summaries_applied(pre.4, levels@.take(i as int)) && core.asks.as_map() == pre.5,
            !bids ==> core.asks.as_map() == summaries_applied(pre.5, levels@.take(i as int)) && core.bids.as_map() == pre.4,
        decreases levels.len() - i,
    {
        let price = parse_decimal_or_zero(levels[i].price.as_str());
        let size = parse_decimal_or_zero(levels[i].size.as_str());
        assert(levels@.take(i + 1).drop_last() =~= levels@.take(i as int));
        if bids {
            core.modify_bid(price, size);
        } else {
            core.modify_asks(price, size);
        }
        i = i + 1;
    }
    assert(levels@.take(levels.len() as int) =~= levels@);
}

impl ExchangeAdapter for PolyCLOBAdapter {
    type InputBookData = PolyCLOBMessage;

    open spec fn name_spec(&self) -> Seq<char> {
        "polymarket"@
    }

    open spec fn snapshot_spec(&self, msg: &PolyCLOBMessage) -> bool {
        msg is Snapshot
    }

    open spec fn seq_id_spec(&self, msg: &PolyCLOBMessage) -> u64 {
        0
    }

    open spec fn prev_seq_id_spec(&self, msg: &PolyCLOBMessage) -> u64 {
        0
    }

    open spec fn applied(&self, pre: BookView, msg: &PolyCLOBMessage) -> BookView {
        poly_applied(pre, *msg)
    }

    open spec fn integrity_spec(&self, core: BookView, msg: &PolyCLOBMessage) -> bool {
        true
    }

    fn exchange_name(&self) -> (r: &'static str) {
        "polymarket"
    }

    fn is_snapshot(&self, msg: &PolyCLOBMessage) -> (r: bool) {
        match msg {
            PolyCLOBMessage::Snapshot(_) => true,
            _ => false,
        }
    }

    fn get_seq_id(&self, msg: &PolyCLOBMessage) -> (r: u64) {
        0
    }

    fn get_prev_seq_id(&self, msg: &PolyCLOBMessage) -> (r: u64) {
        0
    }

    fn apply(&self, core: &mut OrderBookL2, msg: &PolyCLOBMessage) {
        match msg {
            PolyCLOBMessage::Snapshot(snapshot) => {
                if !str_eq(core.instrument_id.as_str(), snapshot.asset_id.as_str()) {
                    return;
                }
                apply_summaries(core, &snapshot.bids, true);
                apply_summaries(core, &snapshot.asks, false);
            },
            PolyCLOBMessage::L2Tick(tick) => {
                let ghost pre = core.view_of();
                let mut i: usize = 0;
                while i < tick.price_changes.len()
                    invariant
                        i <= tick.price_changes.len(),
                        core.wf(),
                        core.exchange@ == pre.0,
                        core.ts@ == pre.1,
                        core.las_seq_id == pre.2,
                        core.instrument_id@ == pre.3,
                        (core.bids.as_map(), core.asks.as_map()) == ticks_applied(
                            pre.4,
                            pre.5,
                            tick.price_changes@.take(i as int),
                            pre.3,
                        ),
                    decreases tick.price_changes.len() - i,
                {
                    let level = &tick.price_changes[i];
                    assert(tick.price_changes@.take(i + 1).drop_last() =~= tick.price_changes@.take(i as int));
                    if str_eq(core.instrument_id.as_str(), level.asset_id.as_str()) {
                        if str_eq(level.side.as_str(), "BUY") {
                            let price = parse_decimal_or_zero(level.price.as_str());
                            let size = parse_decimal_or_zero(level.size.as_str());
                            core.modify_bid(price, size);
                        } else if str_eq(level.side.as_str(), "SELL") {
                            let price = parse_decimal_or_zero(level.price.as_str());
                            let size = parse_decimal_or_zero(level.size.as_str());
                            core.modify_asks(price, size);
                        }
                    }
                    i = i + 1;
                }
                assert(tick.price_changes@.take(tick.price_changes.len() as int) =~= tick.price_changes@);
            },
            PolyCLOBMessage::LastTrade(_) => {},
        }
    }

    fn verify_integrity(&self, core: &OrderBookL2, msg: &PolyCLOBMessage) -> (r: bool) {
        true
    }
}

impl PolyCLOBConnectorAdapter {
    /// The market channel's address.
    pub fn get_url(&self) -> (r: String)
        ensures
            r@ == "wss://ws-subscriptions-clob.polymarket.com/ws/market"@,
    {
        "wss://ws-subscriptions-clob.polymarket.com/ws/market".to_owned()
    }

    /// The subscription operation: `unsubscribe` or `subscribe`.
    pub fn subscription_operation(&self, is_unsub: bool) -> (r: &'static str)
        ensures
            r@ == (if is_unsub { "unsubscribe"@ } else { "subscribe"@ }),
    {
        if is_unsub {
            "unsubscribe"
        } else {
            "subscribe"
        }
    }
}

} // verus!

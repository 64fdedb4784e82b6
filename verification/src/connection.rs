//! Decisions of the exchange connections: reconnect back-off, which restart
//! signals lead to a resubscription, what each websocket frame asks for,
//! and how the OKX stream routes a push to its instrument's book.

use vstd::prelude::*;
use vstd::hash_map::StringHashMap;
use crate::error::ConnectorError;
use crate::text::{eq_ignore_ascii_case, eq_ignoring_ascii_case, str_eq};

verus! {

/// Longest wait between reconnection attempts, in seconds.
pub const MAX_BACKOFF_SECS: u64 = 60;

/// The wait after `backoff` seconds: doubled, at most a minute.
pub fn next_backoff(backoff: u64) -> (r: u64)
    requires
        backoff <= u64::MAX / 2,
    ensures
        r == (if 2 * backoff <= MAX_BACKOFF_SECS { 2 * backoff } else { MAX_BACKOFF_SECS as int }),
{
    let doubled = backoff * 2;
    if doubled <= MAX_BACKOFF_SECS {
        doubled
    } else {
        MAX_BACKOFF_SECS
    }
}

/// The back-off after a session that lasted `elapsed_secs`: a session
/// longer than `threshold_secs` resets it to one second.
pub fn backoff_after_session(backoff: u64, elapsed_secs: u64, threshold_secs: u64) -> (r: u64)
    ensures
        r == (if elapsed_secs > threshold_secs { 1 } else { backoff }),
{
    if elapsed_secs > threshold_secs {
        1
    } else {
        backoff
    }
}

/// The kind of a websocket frame read from an exchange.
#[derive(Debug, Clone, Copy, PartialEq, Eq, Structural)]
pub enum FrameKind {
    Text,
    Binary,
    Ping,
    Pong,
    Close,
    Frame,
    ReadError,
    StreamEnded,
}

/// What the connector does with a frame.
#[derive(Debug, Clone, Copy, PartialEq, Eq, Structural)]
pub enum FrameAction {
    Parse,
    ReplyPong,
    EndConnection,
}

/// Text and binary frames are parsed, pings answered; a close, an error,
/// the end of the stream and any other frame end the connection.
pub fn frame_action(kind: FrameKind) -> (r: FrameAction)
    ensures
        r == (match kind {
            FrameKind::Text | FrameKind::Binary => FrameAction::Parse,
            FrameKind::Ping => FrameAction::ReplyPong,
            _ => FrameAction::EndConnection,
        }),
{
    match kind {
        FrameKind::Text | FrameKind::Binary => FrameAction::Parse,
        FrameKind::Ping => FrameAction::ReplyPong,
        _ => FrameAction::EndConnection,
    }
}

/// What a routing connection does with a frame.
#[derive(Debug, Clone, Copy, PartialEq, Eq, Structural)]
pub enum RoutedFrameAction {
    Route,
    ReplyPong,
    EndConnection,
    Ignore,
}

/// For a connection that routes text pushes to books: text is routed,
/// pings answered, a close or an error ends the connection, anything else
/// is ignored.
pub fn routed_frame_action(kind: FrameKind) -> (r: RoutedFrameAction)
    ensures
        r == (match kind {
            FrameKind::Text => RoutedFrameAction::Route,
            FrameKind::Ping => RoutedFrameAction::ReplyPong,
            FrameKind::Close | FrameKind::ReadError => RoutedFrameAction::EndConnection,
            _ => RoutedFrameAction::Ignore,
        }),
{
    match kind {
        FrameKind::Text => RoutedFrameAction::Route,
        FrameKind::Ping => RoutedFrameAction::ReplyPong,
        FrameKind::Close | FrameKind::ReadError => RoutedFrameAction::EndConnection,
        _ => RoutedFrameAction::Ignore,
    }
}

/// The subscriptions of one exchange connection.
pub struct ConnectorSession {
    pub source_name: String,
    pub active_subs: StringHashMap<()>,
}

impl ConnectorSession {
    /// A session of the feed `source_name` with nothing subscribed.
    pub fn new(source_name: String) -> (r: Self)
        ensures
            r.source_name == source_name,
            r.active_subs@.dom() == Set::<Seq<char>>::empty(),
    {
        let r = ConnectorSession { source_name, active_subs: StringHashMap::new() };
        assert(r.active_subs@.dom() =~= Set::<Seq<char>>::empty());
        r
    }

    /// Records `instruments` as subscribed.
    pub fn record_subscriptions(&mut self, instruments: &[String])
        ensures
            final(self).source_name == old(self).source_name,
            final(self).active_subs@.dom() == old(self).active_subs@.dom().union(
                instruments@.map_values(|s: String| s@).to_set(),
            ),
    {
        let ghost start = self.active_subs@.dom();
        let mut i: usize = 0;
        while i < instruments.len()
            invariant
                i <= instruments.len(),
                self.source_name == old(self).source_name,
                start == old(self).active_subs@.dom(),
                self.active_subs@.dom() == start.union(instruments@.take(i as int).map_values(|s: String| s@).to_set()),
            decreases instruments.len() - i,
        {
            self.active_subs.insert(instruments[i].clone(), ());
            proof {
                let a = instruments@.take(i as int).map_values(|s: String| s@);
                let b = instruments@.take(i + 1).map_values(|s: String| s@);
                assert(b =~= a.push(instruments@[i as int]@));
                assert(b.to_set() =~= a.to_set().insert(instruments@[i as int]@)) by {
                    assert forall|x: Seq<char>| b.to_set().contains(x) <==> a.to_set().insert(instruments@[i as int]@).contains(x) by {
                        if b.contains(x) {
                            let k = choose|k: int| 0 <= k < b.len() && b[k] == x;
                            if k < a.len() {
                                assert(a[k] == x);
                            }
                        }
                        if a.contains(x) {
                            let k = choose|k: int| 0 <= k < a.len() && a[k] == x;
                            assert(b[k] == x);
                        }
                        if x == instruments@[i as int]@ {
                            assert(b[i as int] == x);
                        }
                    }
                }
            }
            i = i + 1;
        }
        assert(instruments@.take(instruments.len() as int) =~= instruments@);
    }

    /// The instrument to resubscribe for a restart signal naming it, when it
    /// is subscribed.
    pub fn subscribed(&self, instrument: &str) -> (r: Option<String>)
        ensures
            r is Some <==> self.active_subs@.contains_key(instrument@),
            r matches Some(s) ==> s@ == instrument@,
    {
        if self.active_subs.contains_key(instrument) {
            Some(instrument.to_owned())
        } else {
            None
        }
    }

    /// The instrument to unsubscribe, resubscribe and re-bootstrap for a
    /// restart signal: one for this feed (ASCII case ignored) about an
    /// instrument it has subscribed.
    pub fn on_restart_signal(&self, exchange: &str, instrument: &str) -> (r: Option<String>)
        ensures
            r is Some <==> eq_ignoring_ascii_case(exchange@, self.source_name@) && self.active_subs@.contains_key(
                instrument@,
            ),
            r matches Some(s) ==> s@ == instrument@,
    {
        if !eq_ignore_ascii_case(exchange, self.source_name.as_str()) {
            return None;
        }
        if self.active_subs.contains_key(instrument) {
            Some(instrument.to_owned())
        } else {
            None
        }
    }
}

/// The bytes `"instId":"` that precede an OKX instrument id.
pub open spec fn inst_id_pattern() -> Seq<u8> {
    seq![0x22u8, 0x69u8, 0x6eu8, 0x73u8, 0x74u8, 0x49u8, 0x64u8, 0x22u8, 0x3au8, 0x22u8]
}

/// `pat` occurs in `b` at `i`.
pub open spec fn occurs_at(b: Seq<u8>, pat: Seq<u8>, i: int) -> bool {
    0 <= i && i + pat.len() <= b.len() && b.subrange(i, i + pat.len()) == pat
}

/// The first index at which `pat` occurs in `b`.
pub open spec fn first_occurrence(b: Seq<u8>, pat: Seq<u8>) -> Option<int> {
    if exists|i: int| occurs_at(b, pat, i) {
        Some(choose|i: int| occurs_at(b, pat, i) && forall|j: int| 0 <= j < i ==> !occurs_at(b, pat, j))
    } else {
        None
    }
}

/// The instrument id of an OKX push: the bytes after the first `"instId":"`
/// up to the next `"`.
pub open spec fn inst_id_of(b: Seq<u8>) -> Option<Seq<u8>> {
    match first_occurrence(b, inst_id_pattern()) {
        None => None,
        Some(i) => {
            let start = i + 10;
            if exists|j: int| start <= j < b.len() && b[j] == 0x22u8 {
                let end = choose|j: int| start <= j < b.len() && b[j] == 0x22u8 && forall|k: int| start <= k < j ==> b[k] != 0x22u8;
                Some(b.subrange(start, end))
            } else {
                None
            }
        },
    }
}

/// The little-endian value of the first `n` bytes of `b`.
pub open spec fn le_value(b: Seq<u8>, n: nat) -> int
    decreases n,
{
    if n == 0 {
        0
    } else {
        le_value(b, (n - 1) as nat) + b[n - 1] * pow256((n - 1) as nat)
    }
}

/// 256^n.
pub open spec fn pow256(n: nat) -> int
    decreases n,
{
    if n == 0 {
        1
    } else {
        256 * pow256((n - 1) as nat)
    }
}

/// Length of the instrument ids the stream routes.
pub const INST_ID_LEN: usize = 13;

/// Routing the push panics: its instrument id is not 13 bytes long.
pub open spec fn routing_panics(b: Seq<u8>) -> bool {
    inst_id_of(b) matches Some(id) && id.len() != INST_ID_LEN
}

/// The OKX push stream's routing table: instrument ids as little-endian
/// `u128` keys (13 bytes, zero padded), each with its topic.
pub struct OkxOrderBookDataStream {
    pub hex_topic_map: Vec<(u128, String)>,
}

/// The topics in `table` whose key is `key`, in table order.
pub open spec fn topics_for(table: Seq<(u128, String)>, key: int) -> Seq<Seq<char>>
    decreases table.len(),
{
    if table.len() == 0 {
        Seq::empty()
    } else {
        let prev = topics_for(table.drop_last(), key);
        if table.last().0 == key {
            prev.push(table.last().1@)
        } else {
            prev
        }
    }
}

/// Whether `pat` occurs in `b` at `i`.
fn occurs_at_exec(b: &[u8], pat: &[u8], i: usize) -> (r: bool)
    ensures
        r == occurs_at(b@, pat@, i as int),
{
    if i > b.len() || b.len() - i < pat.len() {
        return false;
    }
    let mut k: usize = 0;
    while k < pat.len()
        invariant
            k <= pat.len(),
            i + pat.len() <= b.len(),
            forall|j: int| 0 <= j < k ==> b@[i + j] == pat@[j],
        decreases pat.len() - k,
    {
        if b[i + k] != pat[k] {
            assert(b@.subrange(i as int, i + pat@.len())[k as int] != pat@[k as int]);
            return false;
        }
        k = k + 1;
    }
    assert(b@.subrange(i as int, i + pat@.len()) =~= pat@);
    true
}

/// The first index at which `pat` occurs in `b`.
fn find_pattern(b: &[u8], pat: &[u8]) -> (r: Option<usize>)
    ensures
        match r {
            Some(i) => occurs_at(b@, pat@, i as int) && forall|j: int| 0 <= j < i ==> !occurs_at(b@, pat@, j),
            None => forall|j: int| !occurs_at(b@, pat@, j),
        },
{
    let mut i: usize = 0;
    while i < b.len()
        invariant
            i <= b.len(),
            forall|j: int| 0 <= j < i ==> !occurs_at(b@, pat@, j),
        decreases b.len() - i,
    {
        if occurs_at_exec(b, pat, i) {
            return Some(i);
        }
        i = i + 1;
    }
    if occurs_at_exec(b, pat, i) {
        return Some(i);
    }
    assert forall|j: int| !occurs_at(b@, pat@, j) by {
        if j > b@.len() {
            assert(!(j + pat@.len() <= b@.len()));
        }
    }
    None
}

/// The first index from `from` at which `b` holds `byte`.
fn find_byte(b: &[u8], from: usize, byte: u8) -> (r: Option<usize>)
    ensures
        match r {
            Some(j) => from <= j < b@.len() && b@[j as int] == byte && forall|k: int| from <= k < j ==> b@[k] != byte,
            None => forall|k: int| from <= k < b@.len() ==> b@[k] != byte,
        },
{
    let mut j: usize = from;
    while j < b.len()
        invariant
            from <= j,
            forall|k: int| from <= k < j ==> b@[k] != byte,
        decreases b.len() - j,
    {
        if b[j] == byte {
            return Some(j);
        }
        j = j + 1;
    }
    None
}

/// The first occurrence found is the one `first_occurrence` names.
proof fn lemma_first_occurrence(b: Seq<u8>, pat: Seq<u8>, i: int)
    requires
        occurs_at(b, pat, i),
        forall|j: int| 0 <= j < i ==> !occurs_at(b, pat, j),
    ensures
        first_occurrence(b, pat) == Some(i),
{
    let w = choose|w: int| occurs_at(b, pat, w) && forall|j: int| 0 <= j < w ==> !occurs_at(b, pat, j);
    if w < i {
        assert(!occurs_at(b, pat, w));
    }
    if w > i {
        assert(!occurs_at(b, pat, i));
    }
}

/// The instrument id of a push, as its byte range.
fn find_inst_id(b: &[u8]) -> (r: Option<(usize, usize)>)
    ensures
        match inst_id_of(b@) {
            None => r is None,
            Some(id) => r matches Some((s, e)) && s <= e <= b@.len() && b@.subrange(s as int, e as int) == id,
        },
{
    let pat: [u8; 10] = [0x22u8, 0x69u8, 0x6eu8, 0x73u8, 0x74u8, 0x49u8, 0x64u8, 0x22u8, 0x3au8, 0x22u8];
    assert(pat@ =~= inst_id_pattern());
    let i0 = match find_pattern(b, pat.as_slice()) {
        None => {
            return None;
        },
        Some(i0) => i0,
    };
    let n = b.len();
    proof {
        lemma_first_occurrence(b@, inst_id_pattern(), i0 as int);
        assert(inst_id_pattern().len() == 10);
        assert(i0 + 10 <= n);
    }
    let start = i0 + 10;
    match find_byte(b, start, 0x22u8) {
        None => None,
        Some(end) => {
            proof {
                let w = choose|j: int| start <= j < b@.len() && b@[j] == 0x22u8 && forall|k: int| start <= k < j ==> b@[k] != 0x22u8;
                if w < end {
                    assert(b@[w] != 0x22u8);
                }
                if w > end {
                    assert(b@[end as int] != 0x22u8);
                }
            }
            Some((start, end))
        },
    }
}

/// The little-endian key of the 13 bytes at `s`.
fn le_key(b: &[u8], s: usize) -> (r: u128)
    requires
        s + INST_ID_LEN <= b.len(),
    ensures
        r == le_value(b@.subrange(s as int, s + INST_ID_LEN), INST_ID_LEN as nat),
{
    let ghost id = b@.subrange(s as int, s + INST_ID_LEN);
    let mut key: u128 = 0;
    let mut pow: u128 = 1;
    let mut k: usize = 0;
    proof {
        reveal_with_fuel(pow256, 14);
        assert(pow256(13) == 0x100_0000_0000_0000_0000_0000_0000);
    }
    while k < INST_ID_LEN
        invariant
            k <= INST_ID_LEN,
            s + INST_ID_LEN <= b.len(),
            id == b@.subrange(s as int, s + INST_ID_LEN),
            pow == pow256(k as nat),
            key == le_value(id, k as nat),
            key < pow256(k as nat),
            pow256(13) == 0x100_0000_0000_0000_0000_0000_0000,
        decreases INST_ID_LEN - k,
    {
        proof {
            lemma_pow256_mono((k + 1) as nat, 13);
            assert(key + (b@[s + k] as int) * pow < pow256((k + 1) as nat)) by (nonlinear_arith)
                requires
                    key < pow,
                    b@[s + k] <= 255,
                    pow256((k + 1) as nat) == 256 * pow,
            ;
            assert(id[k as int] == b@[s + k]);
        }
        key = key + (b[s + k] as u128) * pow;
        pow = pow * 256;
        k = k + 1;
    }
    key
}

impl OkxOrderBookDataStream {
    /// A stream with this routing table.
    pub fn new(hex_topic_map: Vec<(u128, String)>) -> (r: Self)
        ensures
            r.hex_topic_map == hex_topic_map,
    {
        OkxOrderBookDataStream { hex_topic_map }
    }

    /// The reply to a text frame: `pong` to `ping`.
    pub fn text_reply(&self, txt: &str) -> (r: Option<&'static str>)
        ensures
            r is Some <==> txt@ == "ping"@,
            r matches Some(s) ==> s@ == "pong"@,
    {
        if str_eq(txt, "ping") {
            Some("pong")
        } else {
            None
        }
    }

    /// The text sent on every heartbeat.
    pub fn heartbeat_text(&self) -> (r: &'static str)
        ensures
            r@ == "PING"@,
    {
        "PING"
    }

    /// The topics a push is forwarded to: those whose key is the push's
    /// instrument id; none when it has no instrument id.
    pub fn route_message(&self, b: &[u8]) -> (r: Vec<String>)
        requires
            !routing_panics(b@),
        ensures
            match inst_id_of(b@) {
                None => r@.len() == 0,
                Some(id) => r@.map_values(|s: String| s@) == topics_for(self.hex_topic_map@, le_value(id, INST_ID_LEN as nat)),
            },
    {
        let (s, e) = match find_inst_id(b) {
            None => {
                return Vec::new();
            },
            Some(p) => p,
        };
        let ghost id = b@.subrange(s as int, e as int);
        assert(e - s == INST_ID_LEN);
        let key = le_key(b, s);
        let mut out: Vec<String> = Vec::new();
        let mut i: usize = 0;
        while i < self.hex_topic_map.len()
            invariant
                i <= self.hex_topic_map.len(),
                key == le_value(id, INST_ID_LEN as nat),
                out@.map_values(|s: String| s@) == topics_for(self.hex_topic_map@.take(i as int), key as int),
            decreases self.hex_topic_map.len() - i,
        {
            assert(self.hex_topic_map@.take(i + 1).drop_last() =~= self.hex_topic_map@.take(i as int));
            if self.hex_topic_map[i].0 == key {
                out.push(self.hex_topic_map[i].1.clone());
                assert(out@.map_values(|s: String| s@) =~= topics_for(self.hex_topic_map@.take(i as int), key as int).push(self.hex_topic_map@[i as int].1@));
            }
            i = i + 1;
        }
        assert(self.hex_topic_map@.take(self.hex_topic_map.len() as int) =~= self.hex_topic_map@);
        out
    }

    /// `route_message`, or an error for a push whose instrument id is not
    /// 13 bytes long.
    pub fn try_route_message(&self, b: &[u8]) -> (r: Result<Vec<String>, ConnectorError>)
        ensures
            r is Err <==> routing_panics(b@),
            r matches Err(e) ==> e matches ConnectorError::ParseError(t) && t@ == "instrument id of unexpected length"@,
            r matches Ok(v) ==> match inst_id_of(b@) {
                None => v@.len() == 0,
                Some(id) => v@.map_values(|s: String| s@) == topics_for(self.hex_topic_map@, le_value(id, INST_ID_LEN as nat)),
            },
    {
        match find_inst_id(b) {
            Some((s, e)) => {
                if e - s != INST_ID_LEN {
                    return Err(ConnectorError::ParseError("instrument id of unexpected length".to_owned()));
                }
            },
            None => {},
        }
        Ok(self.route_message(b))
    }
}

pub proof fn lemma_pow256_mono(a: nat, b: nat)
    requires
        a <= b,
    ensures
        pow256(a) <= pow256(b),
        pow256(a) >= 1,
    decreases b,
{
    if a < b {
        lemma_pow256_mono(a, (b - 1) as nat);
    } else if a > 0 {
        lemma_pow256_mono((a - 1) as nat, (a - 1) as nat);
    }
}

/// The channels an OKX stream resubscribes after restart signals: every
/// instrument signalled so far, in order.
pub struct OkxStreamSession {
    pub failure_channels: Vec<String>,
}

impl OkxStreamSession {
    /// A session with no failed channel.
    pub fn new() -> (r: Self)
        ensures
            r.failure_channels@.len() == 0,
    {
        OkxStreamSession { failure_channels: Vec::new() }
    }

    /// Records a restart signal; the channels to unsubscribe and then
    /// resubscribe are all those signalled so far.
    pub fn on_restart_signal(&mut self, signal: String) -> (r: Vec<String>)
        ensures
            final(self).failure_channels@ == old(self).failure_channels@.push(signal),
            r@.map_values(|s: String| s@) == final(self).failure_channels@.map_values(|s: String| s@),
    {
        self.failure_channels.push(signal);
        let mut out: Vec<String> = Vec::new();
        let mut i: usize = 0;
        while i < self.failure_channels.len()
            invariant
                i <= self.failure_channels.len(),
                out@.len() == i,
                forall|j: int| 0 <= j < i ==> #[trigger] out@[j]@ == self.failure_channels@[j]@,
            decreases self.failure_channels.len() - i,
        {
            out.push(self.failure_channels[i].clone());
            i = i + 1;
        }
        assert(out@.map_values(|s: String| s@) =~= self.failure_channels@.map_values(|s: String| s@));
        out
    }
}

} // verus!

//! Binance SBE depth frames. A frame is little-endian: an 8-byte message
//! header (block length, template id, schema id, version), the fixed block,
//! a bid group and an ask group (each a 2-byte entry length and a 2-byte
//! count, then `count` entries of a price and a quantity mantissa), and the
//! symbol as a length byte followed by its bytes.

use vstd::prelude::*;

verus! {

/// Length of the message header.
pub const SBE_HEADER_LEN: usize = 8;

/// Schema id of Binance's spot stream schema.
pub const SBE_SCHEMA_ID: u16 = 1;

/// Template id of a depth snapshot event.
pub const DEPTH_SNAPSHOT_TEMPLATE_ID: u16 = 10002;

/// Template id of a depth diff event.
pub const DEPTH_DIFF_TEMPLATE_ID: u16 = 10003;

/// Bytes of the fixed block of a diff event: event time, first and last
/// update id, price and quantity exponents.
pub const DIFF_BLOCK_LEN: usize = 26;

/// Bytes of the fixed block of a snapshot event: event time, update id,
/// price and quantity exponents.
pub const SNAPSHOT_BLOCK_LEN: usize = 18;

/// The little-endian `u16` at `i`.
pub open spec fn u16_le(b: Seq<u8>, i: int) -> int {
    b[i] + 256 * b[i + 1]
}

/// The little-endian `u64` at `i`.
pub open spec fn u64_le(b: Seq<u8>, i: int) -> int {
    b[i] + 0x100 * b[i + 1] + 0x1_0000 * b[i + 2] + 0x100_0000 * b[i + 3] + 0x1_0000_0000 * b[i + 4]
        + 0x100_0000_0000 * b[i + 5] + 0x1_0000_0000_0000 * b[i + 6] + 0x100_0000_0000_0000 * b[i + 7]
}

/// The little-endian two's-complement `i64` at `i`.
pub open spec fn i64_le(b: Seq<u8>, i: int) -> i64 {
    (u64_le(b, i) as u64) as i64
}

/// The fixed fields of a depth event; a snapshot's single update id is both
/// its first and its last.
#[derive(Debug, Clone, Copy, PartialEq, Eq, Structural)]
pub struct DepthFields {
    pub event_time: i64,
    pub first_update_id: i64,
    pub last_update_id: i64,
    pub price_exponent: i8,
    pub qty_exponent: i8,
}

/// A decoded depth event: fixed fields, bid and ask mantissas, symbol bytes.
#[derive(Debug)]
pub struct DepthFrame {
    pub fields: DepthFields,
    pub bids: Vec<(i64, i64)>,
    pub asks: Vec<(i64, i64)>,
    pub symbol: Vec<u8>,
}

/// The `k`-th entry of a group whose entries of `bl` bytes start at `start`.
pub open spec fn entry_at(b: Seq<u8>, start: int, bl: int, k: int) -> (i64, i64) {
    (i64_le(b, start + k * bl), i64_le(b, start + k * bl + 8))
}

/// The group whose header is at `pos`: its entries and the position after
/// it; `None` if it does not fit in `b` or its entries are shorter than a
/// price and a quantity.
pub open spec fn group_at(b: Seq<u8>, pos: int) -> Option<(Seq<(i64, i64)>, int)> {
    if pos < 0 || pos + 4 > b.len() {
        None
    } else {
        let bl = u16_le(b, pos);
        let n = u16_le(b, pos + 2);
        if (n > 0 && bl < 16) || pos + 4 + n * bl > b.len() {
            None
        } else {
            Some((Seq::new(n as nat, |k: int| entry_at(b, pos + 4, bl, k)), pos + 4 + n * bl))
        }
    }
}

/// The length-prefixed string at `pos`.
pub open spec fn var_string8_at(b: Seq<u8>, pos: int) -> Option<Seq<u8>> {
    if pos < 0 || pos + 1 > b.len() || pos + 1 + b[pos] > b.len() {
        None
    } else {
        Some(b.subrange(pos + 1, pos + 1 + b[pos]))
    }
}

/// The fixed fields of a diff (`is_diff`) or snapshot event in `b`.
pub open spec fn fields_of(b: Seq<u8>, is_diff: bool) -> DepthFields {
    if is_diff {
        DepthFields {
            event_time: i64_le(b, 8),
            first_update_id: i64_le(b, 16),
            last_update_id: i64_le(b, 24),
            price_exponent: b[32] as i8,
            qty_exponent: b[33] as i8,
        }
    } else {
        DepthFields {
            event_time: i64_le(b, 8),
            first_update_id: i64_le(b, 16),
            last_update_id: i64_le(b, 16),
            price_exponent: b[24] as i8,
            qty_exponent: b[25] as i8,
        }
    }
}

/// The depth event in `b` (a frame with a message header), as fields, bids,
/// asks and symbol; `None` where `b` ends before the event does.
pub open spec fn depth_of(b: Seq<u8>, is_diff: bool) -> Option<(DepthFields, Seq<(i64, i64)>, Seq<(i64, i64)>, Seq<u8>)> {
    let fixed: int = if is_diff { DIFF_BLOCK_LEN as int } else { SNAPSHOT_BLOCK_LEN as int };
    if b.len() < 8 + fixed {
        None
    } else {
        match group_at(b, 8 + u16_le(b, 0)) {
            None => None,
            Some((bids, p)) => match group_at(b, p) {
                None => None,
                Some((asks, q)) => match var_string8_at(b, q) {
                    None => None,
                    Some(sym) => Some((fields_of(b, is_diff), bids, asks, sym)),
                },
            },
        }
    }
}

impl DepthFrame {
    pub open spec fn view_tuple(&self) -> (DepthFields, Seq<(i64, i64)>, Seq<(i64, i64)>, Seq<u8>) {
        (self.fields, self.bids@, self.asks@, self.symbol@)
    }
}

/// The little-endian `u16` at `i`.
pub fn read_u16(b: &[u8], i: usize) -> (r: u16)
    requires
        i + 2 <= b@.len(),
    ensures
        r == u16_le(b@, i as int),
{
    (b[i] as u16) + (b[i + 1] as u16) * 256
}

/// The little-endian two's-complement `i64` at `i`.
pub fn read_i64(b: &[u8], i: usize) -> (r: i64)
    requires
        i + 8 <= b@.len(),
    ensures
        r == i64_le(b@, i as int),
{
    let v: u64 = (b[i] as u64) + (b[i + 1] as u64) * 0x100 + (b[i + 2] as u64) * 0x1_0000 + (b[i + 3] as u64) * 0x100_0000
        + (b[i + 4] as u64) * 0x1_0000_0000 + (b[i + 5] as u64) * 0x100_0000_0000 + (b[i + 6] as u64) * 0x1_0000_0000_0000
        + (b[i + 7] as u64) * 0x100_0000_0000_0000;
    v as i64
}

/// The group whose header is at `pos`, and the position after it.
pub fn decode_group(b: &[u8], pos: usize) -> (r: Option<(Vec<(i64, i64)>, usize)>)
    ensures
        match group_at(b@, pos as int) {
            None => r is None,
            Some((entries, end)) => r matches Some((v, p)) && v@ == entries && p == end,
        },
{
    if pos > b.len() || b.len() - pos < 4 {
        return None;
    }
    let bl = read_u16(b, pos) as usize;
    let n = read_u16(b, pos + 2) as usize;
    if n > 0 && bl < 16 {
        return None;
    }
    proof {
        assert(n * bl <= 65535 * 65535) by (nonlinear_arith)
            requires
                n <= 65535,
                bl <= 65535,
        ;
    }
    let total: u64 = (n as u64) * (bl as u64);
    if total > (b.len() - pos - 4) as u64 {
        return None;
    }
    let end: usize = pos + 4 + total as usize;
    let start: usize = pos + 4;
    let ghost entries = Seq::new(n as nat, |k: int| entry_at(b@, start as int, bl as int, k));
    let mut out: Vec<(i64, i64)> = Vec::with_capacity(n);
    let mut k: usize = 0;
    let mut off: usize = start;
    while k < n
        invariant
            k <= n,
            n > 0 ==> bl >= 16,
            off == start + k * bl,
            start + n * bl == end,
            end <= b@.len(),
            out.len() == k,
            forall|j: int| 0 <= j < k ==> #[trigger] out@[j] == entry_at(b@, start as int, bl as int, j),
        decreases n - k,
    {
        proof {
            assert(k * bl + bl <= n * bl) by (nonlinear_arith)
                requires
                    k < n,
            ;
            assert((k + 1) * bl == k * bl + bl) by (nonlinear_arith);
        }
        let price = read_i64(b, off);
        let qty = read_i64(b, off + 8);
        out.push((price, qty));
        off = off + bl;
        k = k + 1;
    }
    assert(out@ =~= entries);
    Some((out, end))
}

/// The length-prefixed string at `pos`.
pub fn decode_var_string8(b: &[u8], pos: usize) -> (r: Option<Vec<u8>>)
    ensures
        match var_string8_at(b@, pos as int) {
            None => r is None,
            Some(s) => r matches Some(v) && v@ == s,
        },
{
    if pos >= b.len() {
        return None;
    }
    let len = b[pos] as usize;
    if len > b.len() - pos - 1 {
        return None;
    }
    let mut out: Vec<u8> = Vec::with_capacity(len);
    let mut i: usize = 0;
    while i < len
        invariant
            i <= len,
            len == b@[pos as int],
            pos + 1 + len <= b.len(),
            out@ == b@.subrange(pos + 1, pos + 1 + i),
        decreases len - i,
    {
        out.push(b[pos + 1 + i]);
        assert(b@.subrange(pos + 1, pos + 1 + i + 1) =~= b@.subrange(pos + 1, pos + 1 + i).push(b@[pos + 1 + i]));
        i = i + 1;
    }
    Some(out)
}

/// Decodes the diff (`is_diff`) or snapshot event of a frame.
pub fn decode_depth(b: &[u8], is_diff: bool) -> (r: Option<DepthFrame>)
    ensures
        match depth_of(b@, is_diff) {
            None => r is None,
            Some(t) => r matches Some(f) && f.view_tuple() == t,
        },
{
    let fixed: usize = if is_diff { DIFF_BLOCK_LEN } else { SNAPSHOT_BLOCK_LEN };
    if b.len() < 8 + fixed {
        return None;
    }
    let block_length = read_u16(b, 0) as usize;
    let (bids, p) = match decode_group(b, 8 + block_length) {
        Some(g) => g,
        None => {
            return None;
        },
    };
    let (asks, q) = match decode_group(b, p) {
        Some(g) => g,
        None => {
            return None;
        },
    };
    let symbol = match decode_var_string8(b, q) {
        Some(s) => s,
        None => {
            return None;
        },
    };
    let fields = if is_diff {
        DepthFields {
            event_time: read_i64(b, 8),
            first_update_id: read_i64(b, 16),
            last_update_id: read_i64(b, 24),
            price_exponent: b[32] as i8,
            qty_exponent: b[33] as i8,
        }
    } else {
        let id = read_i64(b, 16);
        DepthFields {
            event_time: read_i64(b, 8),
            first_update_id: id,
            last_update_id: id,
            price_exponent: b[24] as i8,
            qty_exponent: b[25] as i8,
        }
    };
    Some(DepthFrame { fields, bids, asks, symbol })
}

} // verus!

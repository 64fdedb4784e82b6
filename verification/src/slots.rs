//! The slot-map storage behind the book indexer: a dense slot map holding one
//! entry per symbol and two secondary maps holding the bid and ask sides.
//! A slot key is carried as its 64-bit FFI form (`KeyData::as_ffi`).

use vstd::prelude::*;
use slotmap::{DefaultKey, DenseSlotMap, Key, KeyData, SecondaryMap};
use crate::levels::OrderBookData;

verus! {

/// Metadata kept per symbol in the primary slot map.
#[derive(Debug)]
pub struct OrderBookMeta {
    pub exchange: String,
}

/// The primary slot map: one entry per symbol.
#[verifier::external_body]
pub struct SymbolSlots {
    map: DenseSlotMap<DefaultKey, OrderBookMeta>,
}

/// A secondary slot map holding one side of each symbol's book.
#[verifier::external_body]
pub struct SideSlots {
    map: SecondaryMap<DefaultKey, OrderBookData>,
}

/// Index part of a key's FFI form.
pub open spec fn key_index(bits: u64) -> int {
    bits as int % 0x1_0000_0000
}

/// Version part of a key's FFI form.
pub open spec fn key_version(bits: u64) -> int {
    bits as int / 0x1_0000_0000
}

/// The key that `KeyData::from_ffi` builds from `bits`: the same index, with
/// the version made odd.
pub open spec fn canonical_key(bits: u64) -> u64 {
    if key_version(bits) % 2 == 1 {
        bits
    } else {
        (bits + 0x1_0000_0000) as u64
    }
}

/// The entries of a symbol slot map, keyed by the FFI form of their keys.
pub uninterp spec fn symbol_slots(m: SymbolSlots) -> Map<u64, OrderBookMeta>;

/// The entries of a side secondary map, keyed by the FFI form of their keys.
pub uninterp spec fn side_slots(m: SideSlots) -> Map<u64, OrderBookData>;

/// `DenseSlotMap::with_capacity_and_key`: an empty map.
#[verifier::external_body]
pub(crate) fn symbols_with_capacity(capacity: usize) -> (r: SymbolSlots)
    requires
        capacity < 0x1_0000,
    ensures
        symbol_slots(r) =~= Map::empty(),
{
    SymbolSlots { map: DenseSlotMap::with_capacity_and_key(capacity) }
}

/// `DenseSlotMap::insert`: the value is stored under a key whose index is not
/// used by any live key (a vacant or a new slot, never the null index) and
/// whose version is odd. It panics only when the map holds 2^32 - 2 entries.
#[verifier::external_body]
pub(crate) fn symbols_insert(m: &mut SymbolSlots, value: OrderBookMeta) -> (bits: u64)
    requires
        symbol_slots(*old(m)).dom().finite(),
        symbol_slots(*old(m)).len() < 0xFFFF_FFFE,
    ensures
        !symbol_slots(*old(m)).contains_key(bits),
        key_index(bits) != 0xFFFF_FFFF,
        canonical_key(bits) == bits,
        forall|f: u64| #[trigger] symbol_slots(*old(m)).contains_key(f) ==> key_index(f) != key_index(bits),
        symbol_slots(*final(m)) == symbol_slots(*old(m)).insert(bits, value),
{
    m.map.insert(value).data().as_ffi()
}

/// `DenseSlotMap::len`: the number of entries.
#[verifier::external_body]
pub(crate) fn symbols_len(m: &SymbolSlots) -> (r: usize)
    requires
        symbol_slots(*m).dom().finite(),
    ensures
        r == symbol_slots(*m).len(),
{
    m.map.len()
}

/// `DenseSlotMap::get` with the key rebuilt by `KeyData::from_ffi`.
#[verifier::external_body]
pub(crate) fn symbols_get(m: &SymbolSlots, bits: u64) -> (r: Option<&OrderBookMeta>)
    ensures
        match r {
            Some(v) => symbol_slots(*m).contains_key(canonical_key(bits)) && *v == symbol_slots(*m)[canonical_key(bits)],
            None => !symbol_slots(*m).contains_key(canonical_key(bits)),
        },
{
    m.map.get(DefaultKey::from(KeyData::from_ffi(bits)))
}

/// `SecondaryMap::with_capacity`: an empty map.
#[verifier::external_body]
pub(crate) fn side_with_capacity(capacity: usize) -> (r: SideSlots)
    requires
        capacity < 0x1_0000,
    ensures
        side_slots(r) =~= Map::empty(),
{
    SideSlots { map: SecondaryMap::with_capacity(capacity) }
}

/// `SecondaryMap::insert` with the key rebuilt by `KeyData::from_ffi`.
/// A null key is ignored; a live key has its value replaced; a key whose slot
/// index is unused is added. When another version of the same slot index is
/// stored, the call returns `None` and what it leaves is not stated here.
#[verifier::external_body]
pub(crate) fn side_insert(m: &mut SideSlots, bits: u64, value: OrderBookData) -> (r: Option<OrderBookData>)
    ensures
        key_index(canonical_key(bits)) == 0xFFFF_FFFF ==> side_slots(*final(m)) == side_slots(*old(m)) && r is None,
        key_index(canonical_key(bits)) != 0xFFFF_FFFF && side_slots(*old(m)).contains_key(canonical_key(bits))
            ==> side_slots(*final(m)) == side_slots(*old(m)).insert(canonical_key(bits), value)
            && r == Some(side_slots(*old(m))[canonical_key(bits)]),
        key_index(canonical_key(bits)) != 0xFFFF_FFFF && !side_slots(*old(m)).contains_key(canonical_key(bits))
            && (forall|f: u64| #[trigger] side_slots(*old(m)).contains_key(f) ==> key_index(f) != key_index(canonical_key(bits)))
            ==> side_slots(*final(m)) == side_slots(*old(m)).insert(canonical_key(bits), value) && r is None,
        !side_slots(*old(m)).contains_key(canonical_key(bits)) ==> r is None,
{
    m.map.insert(DefaultKey::from(KeyData::from_ffi(bits)), value)
}

/// `SecondaryMap::remove` with the key rebuilt by `KeyData::from_ffi`.
#[verifier::external_body]
pub(crate) fn side_remove(m: &mut SideSlots, bits: u64) -> (r: Option<OrderBookData>)
    ensures
        side_slots(*final(m)) == side_slots(*old(m)).remove(canonical_key(bits)),
        r == (if side_slots(*old(m)).contains_key(canonical_key(bits)) {
            Some(side_slots(*old(m))[canonical_key(bits)])
        } else {
            None::<OrderBookData>
        }),
{
    m.map.remove(DefaultKey::from(KeyData::from_ffi(bits)))
}

/// `SecondaryMap::get` with the key rebuilt by `KeyData::from_ffi`.
#[verifier::external_body]
pub(crate) fn side_get(m: &SideSlots, bits: u64) -> (r: Option<&OrderBookData>)
    ensures
        match r {
            Some(v) => side_slots(*m).contains_key(canonical_key(bits)) && *v == side_slots(*m)[canonical_key(bits)],
            None => !side_slots(*m).contains_key(canonical_key(bits)),
        },
{
    m.map.get(DefaultKey::from(KeyData::from_ffi(bits)))
}

} // verus!

//! The slot allocator: generational keys handed out by `slotmap`.
//!
//! A slot key travels through the library as the `u64` that
//! `KeyData::as_ffi` gives for it; `KeyData::from_ffi` turns such a value
//! back into the same key.
use slotmap::{DefaultKey, Key, KeyData, SlotMap};
use vstd::prelude::*;

verus! {

/// The slot map of the allocator. Verus cannot read `SlotMap`'s declaration
/// (its key parameter is bound by slotmap's `Key` trait), so the map sits in
/// a struct of this crate that Verus treats as opaque.
#[verifier::external_body]
pub struct Slots {
    map: SlotMap<DefaultKey, u64>,
}

/// What a slot map holds: each occupied slot's key (as its `u64` form) and
/// the value stored there.
pub uninterp spec fn slot_entries(m: Slots) -> Map<u64, u64>;

/// Relies on `SlotMap::new`: a new slot map is empty.
#[verifier::external_body]
pub(crate) fn slots_new() -> (r: Slots)
    ensures
        slot_entries(r) =~= Map::empty(),
{
    Slots { map: SlotMap::new() }
}

/// Relies on `SlotMap::insert`: the value goes into a slot whose key no
/// occupied slot has, and nothing else changes. Index 0 is never handed
/// out, so the map is full, and `insert` panics, once `u32::MAX - 1` slots
/// are occupied.
#[verifier::external_body]
pub(crate) fn slots_insert(m: &mut Slots, v: u64) -> (r: u64)
    requires
        slot_entries(*old(m)).len() < u32::MAX - 1,
    ensures
        !slot_entries(*old(m)).contains_key(r),
        slot_entries(*final(m)) == slot_entries(*old(m)).insert(r, v),
{
    m.map.insert(v).data().as_ffi()
}

/// Relies on `SlotMap::remove`: the occupied slot of that key is emptied
/// and its value returned. `KeyData::from_ffi` gives back the key itself
/// only for a value that `as_ffi` made, hence the requirement.
#[verifier::external_body]
pub(crate) fn slots_remove(m: &mut Slots, k: u64) -> (r: Option<u64>)
    requires
        slot_entries(*old(m)).contains_key(k),
    ensures
        slot_entries(*final(m)) == slot_entries(*old(m)).remove(k),
        r == Some(slot_entries(*old(m))[k]),
{
    m.map.remove(DefaultKey::from(KeyData::from_ffi(k)))
}

} // verus!

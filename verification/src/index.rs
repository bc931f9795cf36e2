//! The hash index: which slot of a table a key lives in.
//!
//! The index is a `hashbrown::HashMap` from a key to a slot number. Verus does
//! not look inside it. The three functions below are the only places where the
//! map is touched, and what they promise of it is believed, not proved.

use vstd::prelude::*;
use crate::types::Key;

verus! {

/// A `hashbrown::HashMap<Key, usize>` with its default hasher.
#[verifier::external_body]
pub struct SlotIndex {
    slots: hashbrown::HashMap<Key, usize>,
}

/// The key-to-slot pairs that the map holds.
pub uninterp spec fn slot_entries(index: SlotIndex) -> Map<Key, usize>;

/// `hashbrown::HashMap::new`: the new map holds no pair.
#[verifier::external_body]
pub(crate) fn index_new() -> (out: SlotIndex)
    ensures
        slot_entries(out) =~= Map::empty(),
{
    SlotIndex { slots: hashbrown::HashMap::new() }
}

/// `hashbrown::HashMap::get`: the slot stored under `key`, or `None` where the
/// map holds no pair with that key.
#[verifier::external_body]
pub(crate) fn index_get(index: &SlotIndex, key: Key) -> (out: Option<usize>)
    ensures
        out == (if slot_entries(*index).contains_key(key) {
            Some(slot_entries(*index)[key])
        } else {
            None
        }),
{
    index.slots.get(&key).copied()
}

/// `hashbrown::HashMap::insert`: afterwards the map holds `slot` under `key`
/// and every other pair as before; the slot that `key` had before is returned,
/// or `None` where it had none. Like every collection that grows, the map
/// gives up when it cannot get the memory it asks for; that is not modelled.
#[verifier::external_body]
pub(crate) fn index_insert(index: &mut SlotIndex, key: Key, slot: usize) -> (out: Option<usize>)
    ensures
        slot_entries(*final(index)) == slot_entries(*old(index)).insert(key, slot),
        out == (if slot_entries(*old(index)).contains_key(key) {
            Some(slot_entries(*old(index))[key])
        } else {
            None
        }),
{
    index.slots.insert(key, slot)
}

} // verus!

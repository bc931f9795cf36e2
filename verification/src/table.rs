//! A keyed table: values in order of arrival, found again through the hash
//! index.

use vstd::prelude::*;
use crate::index::{index_get, index_insert, index_new, slot_entries, SlotIndex};
use crate::types::Key;

verus! {

/// A map from keys to values that remembers the order in which keys arrived.
///
/// Values sit in a vector; the hash index says which slot a key has. A key,
/// once in, stays in and keeps its slot: values are replaced, never removed.
pub struct Table<V> {
    index: SlotIndex,
    keys: Vec<Key>,
    vals: Vec<V>,
}

impl<V> View for Table<V> {
    type V = Map<Key, V>;

    closed spec fn view(&self) -> Map<Key, V> {
        Map::new(
            |k: Key| slot_entries(self.index).contains_key(k),
            |k: Key| self.vals@[slot_entries(self.index)[k] as int],
        )
    }
}

impl<V> Table<V> {
    /// The index and the two vectors agree: every indexed key points at the
    /// slot that holds it, and every slot's key is indexed.
    pub closed spec fn wf(&self) -> bool {
        &&& self.keys@.len() == self.vals@.len()
        &&& forall|k: Key| #[trigger]
            slot_entries(self.index).contains_key(k) ==> {
                &&& slot_entries(self.index)[k] < self.keys@.len()
                &&& self.keys@[slot_entries(self.index)[k] as int] == k
            }
        &&& forall|i: int|
            0 <= i < self.keys@.len() ==> {
                &&& slot_entries(self.index).contains_key(#[trigger] self.keys@[i])
                &&& slot_entries(self.index)[self.keys@[i]] == i
            }
    }

    /// The keys in order of arrival.
    pub closed spec fn order(&self) -> Seq<Key> {
        self.keys@
    }

    /// The order lists each key of the table once, and nothing else.
    pub proof fn lemma_order(&self)
        requires
            self.wf(),
        ensures
            self.order().no_duplicates(),
            forall|k: Key| self.order().contains(k) <==> self@.contains_key(k),
            forall|i: int| 0 <= i < self.order().len() ==> self@.contains_key(#[trigger] self.order()[i]),
    {
        assert forall|k: Key| self.order().contains(k) <==> self@.contains_key(k) by {
            if self@.contains_key(k) {
                assert(self.keys@[slot_entries(self.index)[k] as int] == k);
            }
        }
    }

    pub fn new() -> (out: Self)
        ensures
            out.wf(),
            out@ == Map::<Key, V>::empty(),
            out.order() == Seq::<Key>::empty(),
    {
        let out = Table { index: index_new(), keys: Vec::new(), vals: Vec::new() };
        assert(out@ =~= Map::<Key, V>::empty());
        out
    }

    pub fn len(&self) -> (out: usize)
        requires
            self.wf(),
        ensures
            out == self.order().len(),
    {
        self.keys.len()
    }

    pub fn key_at(&self, i: usize) -> (out: Key)
        requires
            self.wf(),
            i < self.order().len(),
        ensures
            out == self.order()[i as int],
    {
        self.keys[i]
    }

    pub fn contains_key(&self, key: Key) -> (out: bool)
        requires
            self.wf(),
        ensures
            out == self@.contains_key(key),
    {
        index_get(&self.index, key).is_some()
    }

    pub fn get(&self, key: Key) -> (out: Option<&V>)
        requires
            self.wf(),
        ensures
            match out {
                Some(v) => self@.contains_key(key) && *v == self@[key],
                None => !self@.contains_key(key),
            },
    {
        match index_get(&self.index, key) {
            Some(slot) => Some(&self.vals[slot]),
            None => None,
        }
    }

    /// Puts `val` under `key`, in place of the value that was there if there
    /// was one, at the end of the order if there was none.
    pub fn insert(&mut self, key: Key, val: V)
        requires
            old(self).wf(),
        ensures
            final(self).wf(),
            final(self)@ == old(self)@.insert(key, val),
            final(self).order() == (if old(self)@.contains_key(key) {
                old(self).order()
            } else {
                old(self).order().push(key)
            }),
    {
        match index_get(&self.index, key) {
            Some(slot) => {
                self.vals.set(slot, val);
                assert(self@ =~= old(self)@.insert(key, val));
            },
            None => {
                let slot = self.keys.len();
                self.keys.push(key);
                self.vals.push(val);
                index_insert(&mut self.index, key, slot);
                assert(self@ =~= old(self)@.insert(key, val));
            },
        }
    }
}

} // verus!

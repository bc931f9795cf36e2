//! The transaction journal.
//!
//! The transport may deliver a request more than once. The journal files the
//! answer to each request under the sender and the nonce the sender gave it;
//! when the same key comes again, the filed answer is given again and nothing
//! is carried out a second time.

use vstd::prelude::*;
use crate::events::{ContractEvent, EventModel, JournalKey};
use crate::types::Error;

verus! {

/// One filed answer.
pub struct JournalEntry {
    pub key: JournalKey,
    pub event: ContractEvent,
}

/// The filed answers, each under a key of its own.
pub struct TransactionJournal {
    entries: Vec<JournalEntry>,
}

/// Whether some entry is filed under `key`.
spec fn holds(entries: Seq<JournalEntry>, key: JournalKey) -> bool {
    exists|i: int| 0 <= i < entries.len() && (#[trigger] entries[i]).key == key
}

/// Where the entry under `key` is filed.
spec fn place(entries: Seq<JournalEntry>, key: JournalKey) -> int {
    choose|i: int| 0 <= i < entries.len() && (#[trigger] entries[i]).key == key
}

/// No key is filed twice.
spec fn distinct_keys(entries: Seq<JournalEntry>) -> bool {
    forall|i: int, j: int|
        0 <= i < entries.len() && 0 <= j < entries.len() && i != j ==> (#[trigger] entries[i]).key
            != (#[trigger] entries[j]).key
}

impl View for TransactionJournal {
    type V = Map<JournalKey, EventModel>;

    closed spec fn view(&self) -> Map<JournalKey, EventModel> {
        Map::new(
            |k: JournalKey| holds(self.entries@, k),
            |k: JournalKey| self.entries@[place(self.entries@, k)].event@,
        )
    }
}

/// What `process` leaves behind and answers, given the journal before, the
/// key, and the answer that carrying out the request would give: on a key
/// that is filed, the journal as it was and the filed answer; on a new key,
/// the journal with the new answer filed, and that answer.
pub open spec fn process_outcome(
    journal: Map<JournalKey, EventModel>,
    key: JournalKey,
    computed: EventModel,
) -> (Map<JournalKey, EventModel>, EventModel) {
    if journal.contains_key(key) {
        (journal, journal[key])
    } else {
        (journal.insert(key, computed), computed)
    }
}

/// A request that is processed twice under one key is answered twice with the
/// same event, and the second time nothing is filed and nothing depends on
/// what carrying it out again would have given.
pub proof fn law_process_idempotent(
    journal: Map<JournalKey, EventModel>,
    key: JournalKey,
    first: EventModel,
    second: EventModel,
)
    ensures
        ({
            let (after_first, answer_first) = process_outcome(journal, key, first);
            let (after_second, answer_second) = process_outcome(after_first, key, second);
            &&& answer_second == answer_first
            &&& after_second == after_first
            &&& after_first.contains_key(key)
            &&& after_first[key] == answer_first
        }),
{
}

impl TransactionJournal {
    /// No key is filed twice.
    pub closed spec fn wf(&self) -> bool {
        distinct_keys(self.entries@)
    }

    /// The number of filed answers.
    pub closed spec fn count(&self) -> nat {
        self.entries@.len()
    }

    proof fn lemma_entry(&self, i: int)
        requires
            self.wf(),
            0 <= i < self.entries@.len(),
        ensures
            self@.contains_key(self.entries@[i].key),
            self@[self.entries@[i].key] == self.entries@[i].event@,
            place(self.entries@, self.entries@[i].key) == i,
    {
        let key = self.entries@[i].key;
        assert(holds(self.entries@, key));
    }

    /// A journal in which nothing is filed.
    pub fn new() -> (out: Self)
        ensures
            out.wf(),
            out@ == Map::<JournalKey, EventModel>::empty(),
            out.count() == 0,
            out.filed() == Seq::<JournalKey>::empty(),
    {
        let out = TransactionJournal { entries: Vec::new() };
        assert(out@ =~= Map::<JournalKey, EventModel>::empty());
        assert(out.filed() =~= Seq::<JournalKey>::empty());
        out
    }

    /// The filed keys, oldest first.
    pub closed spec fn filed(&self) -> Seq<JournalKey> {
        Seq::new(self.entries@.len(), |i: int| self.entries@[i].key)
    }

    /// The filed keys are the keys of the journal, each once.
    pub proof fn lemma_filed(&self)
        requires
            self.wf(),
        ensures
            self.filed().len() == self.count(),
            self.filed().no_duplicates(),
            forall|k: JournalKey| self.filed().contains(k) <==> self@.contains_key(k),
            forall|i: int|
                0 <= i < self.filed().len() ==> self@.contains_key(#[trigger] self.filed()[i]),
    {
        let filed = self.filed();
        assert forall|k: JournalKey| filed.contains(k) <==> self@.contains_key(k) by {
            if filed.contains(k) {
                let i = choose|i: int| 0 <= i < filed.len() && filed[i] == k;
                assert(self.entries@[i].key == k);
            }
            if self@.contains_key(k) {
                let i = place(self.entries@, k);
                assert(filed[i] == k);
            }
        }
        assert forall|i: int| 0 <= i < filed.len() implies self@.contains_key(
            #[trigger] filed[i],
        ) by {
            assert(filed.contains(filed[i]));
        }
    }

    pub fn len(&self) -> (out: usize)
        ensures
            out == self.count(),
            out == self.filed().len(),
    {
        self.entries.len()
    }

    /// The filed answers with their keys, oldest first.
    pub fn entries(&self) -> (out: Vec<(JournalKey, ContractEvent)>)
        requires
            self.wf(),
        ensures
            out@.len() == self.filed().len(),
            forall|i: int|
                0 <= i < out@.len() ==> (#[trigger] out@[i]).0 == self.filed()[i] && out@[i].1@
                    == self@[self.filed()[i]],
    {
        let n = self.entries.len();
        let mut out: Vec<(JournalKey, ContractEvent)> = Vec::new();
        let mut i: usize = 0;
        while i < n
            invariant
                self.wf(),
                n == self.entries@.len(),
                0 <= i <= n,
                out@.len() == i,
                forall|j: int|
                    0 <= j < i ==> (#[trigger] out@[j]).0 == self.filed()[j] && out@[j].1@
                        == self@[self.filed()[j]],
            decreases n - i,
        {
            proof {
                self.lemma_entry(i as int);
            }
            out.push((self.entries[i].key, self.entries[i].event.duplicate()));
            i = i + 1;
        }
        out
    }

    /// Where `key` is filed, if it is.
    fn find(&self, key: JournalKey) -> (out: Option<usize>)
        requires
            self.wf(),
        ensures
            match out {
                Some(i) => i < self.entries@.len() && self.entries@[i as int].key == key
                    && self@.contains_key(key) && self@[key] == self.entries@[i as int].event@,
                None => !self@.contains_key(key),
            },
    {
        let n = self.entries.len();
        let mut i: usize = 0;
        while i < n
            invariant
                self.wf(),
                n == self.entries@.len(),
                0 <= i <= n,
                forall|j: int| 0 <= j < i ==> (#[trigger] self.entries@[j]).key != key,
            decreases n - i,
        {
            if self.entries[i].key == key {
                proof {
                    self.lemma_entry(i as int);
                }
                return Some(i);
            }
            i = i + 1;
        }
        None
    }

    pub fn contains(&self, key: JournalKey) -> (out: bool)
        requires
            self.wf(),
        ensures
            out == self@.contains_key(key),
    {
        self.find(key).is_some()
    }

    /// The answer filed under `key`, or `None` where none is filed.
    pub fn lookup(&self, key: JournalKey) -> (out: Option<ContractEvent>)
        requires
            self.wf(),
        ensures
            match out {
                Some(event) => self@.contains_key(key) && event@ == self@[key],
                None => !self@.contains_key(key),
            },
    {
        match self.find(key) {
            Some(i) => Some(self.entries[i].event.duplicate()),
            None => None,
        }
    }

    /// Files `event` under `key` if nothing is filed there, and says whether
    /// it did. What is filed under a key is never overwritten.
    pub fn record(&mut self, key: JournalKey, event: ContractEvent) -> (out: bool)
        requires
            old(self).wf(),
        ensures
            final(self).wf(),
            out == !old(self)@.contains_key(key),
            final(self)@ == (if out {
                old(self)@.insert(key, event@)
            } else {
                old(self)@
            }),
            final(self).count() == old(self).count() + (if out {
                1nat
            } else {
                0nat
            }),
    {
        if self.find(key).is_some() {
            return false;
        }
        self.entries.push(JournalEntry { key, event });
        proof {
            let before = old(self).entries@;
            let after = self.entries@;
            assert forall|k: JournalKey| holds(after, k) <==> (k == key || holds(before, k)) by {
                if holds(before, k) {
                    let i = place(before, k);
                    assert(after[i].key == k);
                }
                if k == key {
                    assert(after[before.len() as int].key == k);
                }
            }
            assert forall|k: JournalKey| holds(before, k) implies after[place(after, k)].event@
                == before[place(before, k)].event@ by {
                let i = place(before, k);
                assert(after[i].key == k);
                let j = place(after, k);
                assert(i == j);
            }
            assert(holds(after, key));
            assert(place(after, key) == before.len());
            assert(self@ =~= old(self)@.insert(key, event@));
        }
        true
    }

    /// Lets go of what is filed under `key`.
    ///
    /// Fails with `NotFound`, and changes nothing, where nothing is filed
    /// there. Nothing that the request had done is undone by this.
    pub fn evict(&mut self, key: JournalKey) -> (out: Result<(), Error>)
        requires
            old(self).wf(),
        ensures
            final(self).wf(),
            match out {
                Ok(()) => old(self)@.contains_key(key) && final(self)@ == old(self)@.remove(key)
                    && final(self).count() == old(self).count() - 1,
                Err(e) => e == Error::NotFound && !old(self)@.contains_key(key) && final(self)@
                    == old(self)@ && final(self).count() == old(self).count(),
            },
    {
        match self.find(key) {
            None => Err(Error::NotFound),
            Some(i) => {
                self.entries.remove(i);
                proof {
                    let before = old(self).entries@;
                    let after = self.entries@;
                    assert forall|a: int| 0 <= a < after.len() implies (#[trigger] after[a])
                        == before[if a < i { a } else { a + 1 }] by {}
                    assert forall|k: JournalKey| holds(after, k) <==> (k != key && holds(before, k)) by {
                        if holds(after, k) {
                            let a = place(after, k);
                            let b = if a < i { a } else { a + 1 };
                            assert(before[b].key == k);
                        }
                        if k != key && holds(before, k) {
                            let b = place(before, k);
                            let a = if b < i { b } else { b - 1 };
                            assert(after[a].key == k);
                        }
                    }
                    assert forall|k: JournalKey| holds(after, k) implies after[place(after, k)].event@
                        == before[place(before, k)].event@ by {
                        let a = place(after, k);
                        let b = if a < i { a } else { a + 1 };
                        assert(before[b].key == k);
                        assert(place(before, k) == b);
                    }
                    assert(self@ =~= old(self)@.remove(key));
                }
                Ok(())
            },
        }
    }

    /// Answers the request filed under `key`, carrying it out only if it is
    /// new.
    ///
    /// Where an answer is filed under `key`, that answer is given and
    /// `compute` is not called: it need not even be callable. Where none is
    /// filed, `compute` is called once, and what it returns is filed and
    /// given.
    pub fn process<F: FnOnce() -> ContractEvent>(&mut self, key: JournalKey, compute: F) -> (out:
        ContractEvent)
        requires
            old(self).wf(),
            !old(self)@.contains_key(key) ==> compute.requires(()),
        ensures
            final(self).wf(),
            (final(self)@, out@) == process_outcome(old(self)@, key, out@),
            old(self)@.contains_key(key) ==> out@ == old(self)@[key] && final(self)@ == old(self)@,
            !old(self)@.contains_key(key) ==> final(self)@ == old(self)@.insert(key, out@)
                && exists|computed: ContractEvent| #[trigger]
                    compute.ensures((), computed) && computed@ == out@,
    {
        match self.lookup(key) {
            Some(event) => event,
            None => {
                let event = compute();
                let answer = event.duplicate();
                proof {
                    assert(compute.ensures((), event));
                }
                self.record(key, event);
                answer
            },
        }
    }
}

} // verus!

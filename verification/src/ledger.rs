//! The idempotency ledger: for each user and idempotency key, either the mark
//! of a request under way or the response that was saved for the key.

use crate::ids::UserId;
use crate::keyed::{
    keyed_map, lemma_keyed_lookup, lemma_keyed_push, lemma_keyed_remove, lemma_keyed_update,
};
use crate::model::EntryView;
use crate::response::HttpResponseSnapshot;
use vstd::prelude::*;
use vstd::string::*;

verus! {

/// What the ledger holds for one key.
#[derive(Debug, PartialEq, Eq)]
pub enum LedgerEntry {
    /// A request with this key has begun and has not finished.
    Processing,
    /// The response of the request that finished first.
    Saved(HttpResponseSnapshot),
}

impl View for LedgerEntry {
    type V = EntryView;

    open spec fn view(&self) -> EntryView {
        match self {
            LedgerEntry::Processing => EntryView::Processing,
            LedgerEntry::Saved(response) => EntryView::Saved(response@),
        }
    }
}

impl Clone for LedgerEntry {
    fn clone(&self) -> (copy: LedgerEntry)
        ensures
            copy@ == self@,
    {
        match self {
            LedgerEntry::Processing => LedgerEntry::Processing,
            LedgerEntry::Saved(response) => LedgerEntry::Saved(response.clone()),
        }
    }
}

/// One row of the ledger.
#[derive(Debug, PartialEq, Eq)]
pub struct IdempotencyRecord {
    pub user_id: UserId,
    pub idempotency_key: String,
    pub entry: LedgerEntry,
}

impl IdempotencyRecord {
    /// The key under which the row is found.
    pub open spec fn key(&self) -> (UserId, Seq<char>) {
        (self.user_id, self.idempotency_key@)
    }
}

/// The ledger. It holds at most one row for a user and key.
#[derive(Debug)]
pub struct IdempotencyLedger {
    records: Vec<IdempotencyRecord>,
}

impl View for IdempotencyLedger {
    type V = Map<(UserId, Seq<char>), EntryView>;

    closed spec fn view(&self) -> Map<(UserId, Seq<char>), EntryView> {
        keyed_map(self.keys(), self.entries())
    }
}

impl IdempotencyLedger {
    spec fn keys(&self) -> Seq<(UserId, Seq<char>)> {
        self.records@.map_values(|record: IdempotencyRecord| record.key())
    }

    spec fn entries(&self) -> Seq<EntryView> {
        self.records@.map_values(|record: IdempotencyRecord| record.entry@)
    }

    /// The invariant of the ledger: no two rows have the same user and key.
    pub closed spec fn wf(&self) -> bool {
        self.keys().no_duplicates()
    }

    /// A ledger without rows.
    pub fn new() -> (ledger: IdempotencyLedger)
        ensures
            ledger.wf(),
            ledger@ == Map::<(UserId, Seq<char>), EntryView>::empty(),
    {
        let ledger = IdempotencyLedger { records: Vec::new() };
        assert(ledger@ =~= Map::<(UserId, Seq<char>), EntryView>::empty());
        ledger
    }

    fn find(&self, user_id: UserId, idempotency_key: &String) -> (found: Option<usize>)
        requires
            self.wf(),
        ensures
            match found {
                Some(i) => i < self.records@.len() && self.keys()[i as int] == (
                    user_id,
                    idempotency_key@,
                ) && self@.contains_key((user_id, idempotency_key@)) && self@[(
                    user_id,
                    idempotency_key@,
                )] == self.entries()[i as int],
                None => !self.keys().contains((user_id, idempotency_key@)) && !self@.contains_key(
                    (user_id, idempotency_key@),
                ),
            },
    {
        let mut i: usize = 0;
        while i < self.records.len()
            invariant
                self.wf(),
                i <= self.records@.len(),
                forall|j: int| 0 <= j < i ==> self.keys()[j] != (user_id, idempotency_key@),
            decreases self.records.len() - i,
        {
            let record = &self.records[i];
            if record.user_id == user_id && record.idempotency_key == *idempotency_key {
                proof {
                    lemma_keyed_lookup(self.keys(), self.entries(), i as int);
                }
                return Some(i);
            }
            i += 1;
        }
        None
    }

    /// What the ledger holds for a user and key, if anything.
    pub fn lookup(&self, user_id: UserId, idempotency_key: &str) -> (entry: Option<LedgerEntry>)
        requires
            self.wf(),
        ensures
            match entry {
                Some(entry) => self@.contains_key((user_id, idempotency_key@)) && entry@ == self@[(
                    user_id,
                    idempotency_key@,
                )],
                None => !self@.contains_key((user_id, idempotency_key@)),
            },
    {
        let key = idempotency_key.to_owned();
        match self.find(user_id, &key) {
            Some(i) => Some(self.records[i].entry.clone()),
            None => None,
        }
    }

    /// Marks a key as being processed if the ledger holds nothing for it, and
    /// says what it held otherwise. `None` tells the caller that the mark is
    /// its own.
    pub fn try_processing(&mut self, user_id: UserId, idempotency_key: &str) -> (held: Option<
        LedgerEntry,
    >)
        requires
            old(self).wf(),
        ensures
            final(self).wf(),
            match held {
                Some(entry) => old(self)@.contains_key((user_id, idempotency_key@)) && entry@
                    == old(self)@[(user_id, idempotency_key@)] && final(self)@ == old(self)@,
                None => !old(self)@.contains_key((user_id, idempotency_key@)) && final(self)@
                    == old(self)@.insert((user_id, idempotency_key@), EntryView::Processing),
            },
    {
        let key = idempotency_key.to_owned();
        match self.find(user_id, &key) {
            Some(i) => Some(self.records[i].entry.clone()),
            None => {
                proof {
                    lemma_keyed_push(
                        self.keys(),
                        self.entries(),
                        (user_id, idempotency_key@),
                        EntryView::Processing,
                    );
                }
                let ghost before = *self;
                self.records.push(
                    IdempotencyRecord {
                        user_id,
                        idempotency_key: key,
                        entry: LedgerEntry::Processing,
                    },
                );
                assert(self.keys() =~= before.keys().push((user_id, idempotency_key@)));
                assert(self.entries() =~= before.entries().push(EntryView::Processing));
                None
            },
        }
    }

    /// Replaces the mark of a key by the response to save. A key that is not
    /// marked is left alone, so a saved response is never overwritten. Says
    /// whether the response was saved.
    pub fn save_response(
        &mut self,
        user_id: UserId,
        idempotency_key: &str,
        response: HttpResponseSnapshot,
    ) -> (saved: bool)
        requires
            old(self).wf(),
        ensures
            final(self).wf(),
            saved == (old(self)@.contains_key((user_id, idempotency_key@)) && old(self)@[(
                user_id,
                idempotency_key@,
            )] is Processing),
            saved ==> final(self)@ == old(self)@.insert(
                (user_id, idempotency_key@),
                EntryView::Saved(response@),
            ),
            !saved ==> final(self)@ == old(self)@,
    {
        let key = idempotency_key.to_owned();
        match self.find(user_id, &key) {
            Some(i) => {
                match &self.records[i].entry {
                    LedgerEntry::Processing => {
                        proof {
                            lemma_keyed_update(
                                self.keys(),
                                self.entries(),
                                i as int,
                                EntryView::Saved(response@),
                            );
                        }
                        let ghost before = *self;
                        self.records.set(
                            i,
                            IdempotencyRecord {
                                user_id,
                                idempotency_key: key,
                                entry: LedgerEntry::Saved(response),
                            },
                        );
                        assert(self.keys() =~= before.keys());
                        assert(self.entries() =~= before.entries().update(
                            i as int,
                            EntryView::Saved(response@),
                        ));
                        true
                    },
                    LedgerEntry::Saved(_) => false,
                }
            },
            None => false,
        }
    }

    /// Withdraws the mark of a key. A saved response stays. Says whether a
    /// mark was withdrawn.
    pub fn release(&mut self, user_id: UserId, idempotency_key: &str) -> (released: bool)
        requires
            old(self).wf(),
        ensures
            final(self).wf(),
            released == (old(self)@.contains_key((user_id, idempotency_key@)) && old(self)@[(
                user_id,
                idempotency_key@,
            )] is Processing),
            released ==> final(self)@ == old(self)@.remove((user_id, idempotency_key@)),
            !released ==> final(self)@ == old(self)@,
    {
        let key = idempotency_key.to_owned();
        match self.find(user_id, &key) {
            Some(i) => {
                match &self.records[i].entry {
                    LedgerEntry::Processing => {
                        proof {
                            lemma_keyed_remove(self.keys(), self.entries(), i as int);
                        }
                        let ghost before = *self;
                        self.records.remove(i);
                        assert(self.keys() =~= before.keys().remove(i as int));
                        assert(self.entries() =~= before.entries().remove(i as int));
                        true
                    },
                    LedgerEntry::Saved(_) => false,
                }
            },
            None => false,
        }
    }

    /// Withdraws every mark, as a restart does: the saved responses stay.
    pub fn release_all(&mut self)
        requires
            old(self).wf(),
        ensures
            final(self).wf(),
            final(self)@ == Map::new(
                |k: (UserId, Seq<char>)| old(self)@.contains_key(k) && old(self)@[k] is Saved,
                |k: (UserId, Seq<char>)| old(self)@[k],
            ),
    {
        let ghost start = self@;
        let mut i: usize = 0;
        while i < self.records.len()
            invariant
                self.wf(),
                i <= self.records@.len(),
                forall|j: int| 0 <= j < i ==> self.entries()[j] is Saved,
                forall|k: (UserId, Seq<char>)|
                    #![trigger self@.contains_key(k)]
                    self@.contains_key(k) ==> start.contains_key(k) && self@[k] == start[k],
                forall|k: (UserId, Seq<char>)|
                    #![trigger start.contains_key(k)]
                    start.contains_key(k) && start[k] is Saved ==> self@.contains_key(k),
            decreases self.records.len() - i,
        {
            proof {
                lemma_keyed_lookup(self.keys(), self.entries(), i as int);
            }
            let marked = match &self.records[i].entry {
                LedgerEntry::Processing => true,
                LedgerEntry::Saved(_) => false,
            };
            if marked {
                proof {
                    lemma_keyed_remove(self.keys(), self.entries(), i as int);
                }
                let ghost before = *self;
                self.records.remove(i);
                assert(self.keys() =~= before.keys().remove(i as int));
                assert(self.entries() =~= before.entries().remove(i as int));
                assert(self@ == before@.remove(before.keys()[i as int]));
                assert(before@[before.keys()[i as int]] is Processing);
            } else {
                i += 1;
            }
        }
        proof {
            assert forall|k: (UserId, Seq<char>)|
                self@.contains_key(k) implies start[k] is Saved by {
                let j = self.keys().index_of(k);
                assert(self.keys().contains(k));
                lemma_keyed_lookup(self.keys(), self.entries(), j);
            }
            assert(self@ =~= Map::new(
                |k: (UserId, Seq<char>)| start.contains_key(k) && start[k] is Saved,
                |k: (UserId, Seq<char>)| start[k],
            ));
        }
    }
}

} // verus!

//! The source ledger: the migratable records, held in ascending key order.

use vstd::prelude::*;
use crate::entity::{ascending, beyond, pending, lemma_pending_is_tail, Entity, EntityKey};
use crate::error::Error;
use crate::guard::Durable;

verus! {

/// The records of the source ledger that are still to be migrated, in
/// strictly ascending key order.
pub struct Ledger {
    entities: Vec<Entity>,
}

impl View for Ledger {
    type V = Seq<Entity>;

    closed spec fn view(&self) -> Seq<Entity> {
        self.entities@
    }
}

impl Ledger {
    /// The keys ascend strictly: the order is total and no key repeats.
    #[verifier::type_invariant]
    pub open spec fn wf(&self) -> bool {
        ascending(self@)
    }

    /// A ledger without records.
    pub fn new() -> (empty: Self)
        ensures
            empty.wf(),
            empty@ == Seq::<Entity>::empty(),
    {
        Ledger { entities: Vec::new() }
    }

    /// The number of records.
    pub fn len(&self) -> (count: usize)
        ensures
            self.wf(),
            count == self@.len(),
    {
        proof {
            use_type_invariant(self);
        }
        self.entities.len()
    }

    /// The record at `index` in key order, if there is one.
    pub fn get(&self, index: usize) -> (found: Option<Entity>)
        ensures
            self.wf(),
            index < self@.len() ==> found == Some(self@[index as int]),
            index >= self@.len() ==> found is None,
    {
        proof {
            use_type_invariant(self);
        }
        if index < self.entities.len() {
            Some(self.entities[index])
        } else {
            None
        }
    }

    /// Where a scan resumed after `after` starts: the index of the first
    /// record whose key lies strictly beyond the cursor, or the number of
    /// records if there is none.
    pub fn scan_from(&self, after: Option<EntityKey>) -> (start: usize)
        ensures
            self.wf(),
            start <= self@.len(),
            forall|i: int| 0 <= i < start ==> !beyond(#[trigger] self@[i].key, after),
            forall|i: int| start <= i < self@.len() ==> beyond(#[trigger] self@[i].key, after),
            pending(self@, after) == self@.skip(start as int),
    {
        proof {
            use_type_invariant(self);
        }
        let start = match after {
            None => 0,
            Some(last) => {
                let mut low: usize = 0;
                let mut high: usize = self.entities.len();
                while low < high
                    invariant
                        low <= high <= self.entities.len(),
                        ascending(self.entities@),
                        forall|i: int| 0 <= i < low ==> (#[trigger] self.entities@[i]).key <= last,
                        forall|i: int|
                            high <= i < self.entities.len() ==> (#[trigger] self.entities@[i]).key
                                > last,
                    decreases high - low,
                {
                    let middle = low + (high - low) / 2;
                    if self.entities[middle].key <= last {
                        low = middle + 1;
                    } else {
                        high = middle;
                    }
                }
                low
            },
        };
        proof {
            lemma_pending_is_tail(self@, after, start as int);
        }
        start
    }

    /// The index of the first record whose key is at least `key`.
    fn locate(&self, key: EntityKey) -> (at: usize)
        ensures
            self.wf(),
            at <= self@.len(),
            forall|i: int| 0 <= i < at ==> (#[trigger] self@[i]).key < key,
            forall|i: int| at <= i < self@.len() ==> (#[trigger] self@[i]).key >= key,
    {
        let cursor = if key == 0 {
            None
        } else {
            Some(key - 1)
        };
        let at = self.scan_from(cursor);
        proof {
            assert forall|i: int| 0 <= i < at implies (#[trigger] self@[i]).key < key by {
                assert(!beyond(self@[i].key, cursor));
            }
            assert forall|i: int| at <= i < self@.len() implies (#[trigger] self@[i]).key
                >= key by {
                assert(beyond(self@[i].key, cursor));
            }
        }
        at
    }

    /// Whether a record with the given key is present.
    pub open spec fn has_key(&self, key: EntityKey) -> bool {
        exists|i: int| 0 <= i < self@.len() && (#[trigger] self@[i]).key == key
    }

    /// Adds a record at its place in key order. A record whose key is
    /// already present is refused and the ledger stays as it was.
    pub fn insert(&mut self, entity: Entity) -> (outcome: Result<(), Error>)
        ensures
            final(self).wf(),
            outcome is Err <==> old(self).has_key(entity.key),
            outcome is Err ==> outcome == Err::<(), Error>(Error::TransientOperationFailure)
                && final(self)@ == old(self)@,
            outcome is Ok ==> exists|at: int|
                0 <= at <= old(self)@.len() && final(self)@ == #[trigger] old(self)@.insert(
                    at,
                    entity,
                ),
    {
        let at = self.locate(entity.key);
        if at < self.entities.len() && self.entities[at].key == entity.key {
            assert(self@[at as int].key == entity.key);
            return Err(Error::TransientOperationFailure);
        }
        let ghost before = self.entities@;
        let mut records: Vec<Entity> = Vec::new();
        std::mem::swap(&mut self.entities, &mut records);
        records.insert(at, entity);
        proof {
            assert(records@ == before.insert(at as int, entity));
            assert forall|i: int, j: int| 0 <= i < j < records@.len() implies records@[i].key
                < records@[j].key by {
                let a = if i < at { i } else { i - 1 };
                let b = if j < at { j } else { j - 1 };
                if i != at && j != at {
                    assert(before[a].key < before[b].key);
                } else if i == at {
                    assert(before[b].key >= entity.key);
                    assert(before[at as int].key <= before[b].key);
                } else {
                    assert(before[a].key < entity.key);
                }
            }
            assert forall|i: int| 0 <= i < before.len() implies (#[trigger] before[i]).key
                != entity.key by {
                if i >= at {
                    assert(before[at as int].key <= before[i].key);
                }
            }
        }
        self.entities = records;
        Ok(())
    }

    /// Takes the record with the given key out of the ledger. A key that is
    /// not present is a defensive failure and leaves the ledger as it was.
    pub fn remove(&mut self, key: EntityKey) -> (outcome: Result<Entity, Error>)
        ensures
            final(self).wf(),
            outcome is Ok <==> old(self).has_key(key),
            outcome is Err ==> outcome == Err::<Entity, Error>(Error::TransientOperationFailure)
                && final(self)@ == old(self)@,
            outcome matches Ok(taken) ==> exists|at: int|
                0 <= at < old(self)@.len() && old(self)@[at] == taken && taken.key == key
                    && final(self)@ == #[trigger] old(self)@.remove(at),
    {
        let at = self.locate(key);
        if at < self.entities.len() && self.entities[at].key == key {
            assert(self@[at as int].key == key);
            let ghost before = self.entities@;
            let mut records: Vec<Entity> = Vec::new();
            std::mem::swap(&mut self.entities, &mut records);
            let taken = records.remove(at);
            proof {
                assert(records@ == before.remove(at as int));
                assert forall|i: int, j: int| 0 <= i < j < records@.len() implies records@[i].key
                    < records@[j].key by {
                    let a = if i < at { i } else { i + 1 };
                    let b = if j < at { j } else { j + 1 };
                    assert(before[a].key < before[b].key);
                }
            }
            self.entities = records;
            Ok(taken)
        } else {
            proof {
                assert forall|i: int| 0 <= i < self@.len() implies (#[trigger] self@[i]).key
                    != key by {
                    if i > at {
                        assert(self@[at as int].key < self@[i].key);
                    }
                }
            }
            Err(Error::TransientOperationFailure)
        }
    }
}

impl Durable for Ledger {
    fn snapshot(&self) -> (copy: Self) {
        proof {
            use_type_invariant(self);
        }
        let mut entities: Vec<Entity> = Vec::new();
        let mut index: usize = 0;
        while index < self.entities.len()
            invariant
                index <= self.entities.len(),
                entities@ == self.entities@.take(index as int),
            decreases self.entities.len() - index,
        {
            entities.push(self.entities[index]);
            index = index + 1;
        }
        proof {
            assert(self.entities@.take(index as int) =~= self.entities@);
        }
        Ledger { entities }
    }
}

} // verus!

//! The durable state that a tick works on: the source ledger and the
//! queue of outbound messages.

use vstd::prelude::*;
use crate::entity::Entity;
use crate::guard::Durable;
use crate::ledger::Ledger;
use crate::messenger::Outbox;

verus! {

/// What a tick may change, and what a failed attempt must leave untouched.
pub struct Storage {
    /// The records still to be migrated.
    pub ledger: Ledger,
    /// The messages handed to the transport and not yet taken by the host.
    pub outbox: Outbox,
}

/// What a `Storage` holds, as plain values.
pub ghost struct StorageView {
    /// The records of the ledger, in ascending key order.
    pub ledger: Seq<Entity>,
    /// The content of each waiting message, oldest first.
    pub outbox: Seq<Seq<Entity>>,
    /// The number of messages the queue can hold.
    pub capacity: usize,
}

impl View for Storage {
    type V = StorageView;

    open spec fn view(&self) -> StorageView {
        StorageView {
            ledger: self.ledger@,
            outbox: self.outbox@,
            capacity: self.outbox.spec_capacity(),
        }
    }
}

impl Storage {
    /// A store with an empty ledger and an empty queue of the given
    /// capacity.
    pub fn new(capacity: usize) -> (empty: Self)
        ensures
            empty@.ledger == Seq::<Entity>::empty(),
            empty@.outbox == Seq::<Seq<Entity>>::empty(),
            empty@.capacity == capacity,
    {
        Storage { ledger: Ledger::new(), outbox: Outbox::new(capacity) }
    }
}

impl Durable for Storage {
    fn snapshot(&self) -> (copy: Self) {
        Storage { ledger: self.ledger.snapshot(), outbox: self.outbox.snapshot() }
    }
}

} // verus!

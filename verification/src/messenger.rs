//! Outbound messages: how a batch is cut into envelopes that the receiving
//! side can process, and the bounded queue that carries them away.

use vstd::prelude::*;
use crate::entity::{lemma_total_cost_push, total_cost, Entity};
use crate::scanner::{lemma_takes_unique, takes, MigrationBatch};
use crate::guard::Durable;

verus! {

/// One envelope on its way to the destination ledger: a run of records
/// whose cost together stays within what the receiver processes at once.
#[derive(Debug)]
pub struct OutboundMessage {
    /// The records in the envelope, in ascending key order.
    pub entities: Vec<Entity>,
}

impl View for OutboundMessage {
    type V = Seq<Entity>;

    open spec fn view(&self) -> Seq<Entity> {
        self.entities@
    }
}

/// The transport did not accept a message: its queue is full.
#[derive(Clone, Copy, Debug, PartialEq, Eq, Structural)]
pub struct TransportError;

/// Why a batch could not be sent.
#[derive(Clone, Copy, Debug, PartialEq, Eq, Structural)]
pub enum SendError {
    /// A single record costs more than the receiver processes in one
    /// message, so no envelope can hold it.
    Oversized,
    /// The transport refused a message.
    Transport(TransportError),
}

/// What each of `messages` holds, in the order of the messages.
pub open spec fn contents(messages: Seq<OutboundMessage>) -> Seq<Seq<Entity>> {
    messages.map_values(|m: OutboundMessage| m@)
}

/// Whether every record of `entities` fits into a message of its own.
pub open spec fn all_fit(entities: Seq<Entity>, ceiling: u64) -> bool {
    forall|i: int| 0 <= i < entities.len() ==> (#[trigger] entities[i]).cost <= ceiling
}

/// Whether `messages` is the packaging of `entities` under `ceiling`: each
/// message is the longest run of the records not yet packed that the
/// ceiling covers, none is empty, and together they take every record.
pub open spec fn packs(entities: Seq<Entity>, ceiling: u64, messages: Seq<Seq<Entity>>) -> bool
    decreases messages.len(),
{
    if messages.len() == 0 {
        entities.len() == 0
    } else {
        let first = messages.first();
        &&& first.len() > 0
        &&& takes(entities, ceiling as nat, first.len() as int)
        &&& first == entities.take(first.len() as int)
        &&& packs(entities.skip(first.len() as int), ceiling, messages.drop_first())
    }
}

/// A packaging loses nothing and repeats nothing: the messages, one after
/// the other, are the entities in their order.
pub proof fn lemma_packs_flatten(entities: Seq<Entity>, ceiling: u64, messages: Seq<Seq<Entity>>)
    requires
        packs(entities, ceiling, messages),
    ensures
        messages.flatten() == entities,
    decreases messages.len(),
{
    if messages.len() == 0 {
        assert(messages.flatten() =~= entities);
    } else {
        let count = messages.first().len() as int;
        lemma_packs_flatten(entities.skip(count), ceiling, messages.drop_first());
        assert(entities.take(count) + entities.skip(count) =~= entities);
    }
}

/// No message of a packaging is empty and none costs more than the
/// ceiling.
pub proof fn lemma_packs_within_ceiling(
    entities: Seq<Entity>,
    ceiling: u64,
    messages: Seq<Seq<Entity>>,
    index: int,
)
    requires
        packs(entities, ceiling, messages),
        0 <= index < messages.len(),
    ensures
        messages[index].len() > 0,
        total_cost(messages[index]) <= ceiling,
    decreases messages.len(),
{
    if index > 0 {
        let count = messages.first().len() as int;
        lemma_packs_within_ceiling(
            entities.skip(count),
            ceiling,
            messages.drop_first(),
            index - 1,
        );
    }
}

/// A packaging has at most as many messages as there are records.
pub proof fn lemma_packs_count(entities: Seq<Entity>, ceiling: u64, messages: Seq<Seq<Entity>>)
    requires
        packs(entities, ceiling, messages),
    ensures
        messages.len() <= entities.len(),
    decreases messages.len(),
{
    if messages.len() > 0 {
        let count = messages.first().len() as int;
        lemma_packs_count(entities.skip(count), ceiling, messages.drop_first());
    }
}

/// The packaging of a run of records under a ceiling is determined by the
/// two: there is at most one.
pub proof fn lemma_packs_unique(
    entities: Seq<Entity>,
    ceiling: u64,
    first: Seq<Seq<Entity>>,
    second: Seq<Seq<Entity>>,
)
    requires
        packs(entities, ceiling, first),
        packs(entities, ceiling, second),
    ensures
        first == second,
    decreases first.len(),
{
    if first.len() == 0 || second.len() == 0 {
        assert(first =~= second);
    } else {
        lemma_takes_unique(
            entities,
            ceiling as nat,
            first.first().len() as int,
            second.first().len() as int,
        );
        let count = first.first().len() as int;
        lemma_packs_unique(entities.skip(count), ceiling, first.drop_first(), second.drop_first());
        assert(first =~= seq![first.first()] + first.drop_first());
        assert(second =~= seq![second.first()] + second.drop_first());
    }
}

/// A packaging of all but the last records, followed by a message of the
/// last records that fits under the ceiling and starts with a record that
/// no longer fitted into the message before, is a packaging of all of them.
proof fn lemma_packs_append(
    entities: Seq<Entity>,
    ceiling: u64,
    messages: Seq<Seq<Entity>>,
    last: Seq<Entity>,
)
    requires
        0 < last.len() <= entities.len(),
        last == entities.skip(entities.len() - last.len()),
        total_cost(last) <= ceiling,
        packs(entities.take(entities.len() - last.len()), ceiling, messages),
        messages.len() > 0 ==> total_cost(messages.last()) + last[0].cost > ceiling,
    ensures
        packs(entities, ceiling, messages.push(last)),
    decreases messages.len(),
{
    let cut = entities.len() - last.len();
    let front = entities.take(cut);
    let all = messages.push(last);
    if messages.len() == 0 {
        assert(cut == 0);
        assert(entities.take(last.len() as int) =~= last);
        assert(all.drop_first() =~= messages);
        assert(all.first() == last);
        assert(packs(entities.skip(last.len() as int), ceiling, all.drop_first()));
    } else {
        let first = messages.first();
        let count = first.len() as int;
        let rest = messages.drop_first();
        assert(front.take(count) =~= entities.take(count));
        if count < cut {
            assert(front.take(count + 1) =~= entities.take(count + 1));
        } else {
            assert(front.skip(count).len() == 0);
            assert(rest.len() == 0) by {
                reveal_with_fuel(packs, 2);
            }
            assert(messages.last() == first);
            assert(entities.take(count + 1) =~= first.push(entities[cut]));
            lemma_total_cost_push(first, entities[cut]);
            assert(last[0] == entities[cut]);
        }
        let tail = entities.skip(count);
        assert(tail.skip(tail.len() - last.len()) =~= last);
        assert(tail.take(tail.len() - last.len()) =~= front.skip(count));
        assert(rest.len() > 0 ==> rest.last() == messages.last());
        lemma_packs_append(tail, ceiling, rest, last);
        assert(all.drop_first() =~= rest.push(last));
        assert(all.first() == first);
        assert(takes(entities, ceiling as nat, count));
        assert(first == entities.take(count));
    }
}

/// Copies a run of records.
fn copy_entities(entities: &Vec<Entity>) -> (copy: Vec<Entity>)
    ensures
        copy@ == entities@,
{
    let mut copy: Vec<Entity> = Vec::new();
    let mut index: usize = 0;
    while index < entities.len()
        invariant
            index <= entities.len(),
            copy@ == entities@.take(index as int),
        decreases entities.len() - index,
    {
        copy.push(entities[index]);
        index = index + 1;
    }
    copy
}

/// Cuts `entities` into messages under the receiver's per-message ceiling,
/// filling each message as far as it goes. A record that alone costs more
/// than the ceiling cannot be sent at all.
pub fn package(entities: &Vec<Entity>, ceiling: u64) -> (outcome: Result<
    Vec<OutboundMessage>,
    SendError,
>)
    ensures
        outcome is Ok <==> all_fit(entities@, ceiling),
        outcome is Err ==> outcome == Err::<Vec<OutboundMessage>, SendError>(SendError::Oversized),
        outcome matches Ok(messages) ==> packs(entities@, ceiling, contents(messages@)),
{
    let mut messages: Vec<OutboundMessage> = Vec::new();
    let mut current: Vec<Entity> = Vec::new();
    let mut weight: u64 = 0;
    let mut index: usize = 0;
    proof {
        assert(entities@.take(0) =~= Seq::<Entity>::empty());
    }
    while index < entities.len()
        invariant
            index <= entities.len(),
            current@.len() <= index,
            current@ == entities@.subrange(index - current@.len(), index as int),
            weight == total_cost(current@),
            weight <= ceiling,
            index > 0 ==> current@.len() > 0,
            all_fit(entities@.take(index as int), ceiling),
            packs(
                entities@.take(index - current@.len()),
                ceiling,
                contents(messages@),
            ),
            messages@.len() > 0 ==> total_cost(messages@.last()@) + current@[0].cost > ceiling,
        decreases entities.len() - index,
    {
        let entity = entities[index];
        if entity.cost > ceiling {
            proof {
                assert(entities@[index as int].cost > ceiling);
            }
            return Err(SendError::Oversized);
        }
        proof {
            assert forall|i: int| 0 <= i < index + 1 implies (#[trigger] entities@.take(
                index + 1,
            )[i]).cost <= ceiling by {
                if i < index {
                    assert(entities@.take(index as int)[i].cost <= ceiling);
                }
            }
        }
        if entity.cost > ceiling - weight {
            let ghost before = contents(messages@);
            let ghost done = entities@.take(index - current@.len());
            let ghost run = current@;
            let message = OutboundMessage { entities: current };
            messages.push(message);
            current = Vec::new();
            current.push(entity);
            weight = entity.cost;
            proof {
                let packed = entities@.take(index as int);
                let after = contents(messages@);
                assert(after =~= before.push(run));
                assert(packed.skip(packed.len() - run.len()) =~= run);
                assert(packed.take(packed.len() - run.len()) =~= done);
                lemma_packs_append(packed, ceiling, before, run);
                assert(current@ =~= entities@.subrange(index as int, index + 1));
                lemma_total_cost_push(Seq::<Entity>::empty(), entity);
                assert(Seq::<Entity>::empty().push(entity) =~= current@);
                assert(total_cost(Seq::<Entity>::empty()) == 0);
            }
        } else {
            proof {
                lemma_total_cost_push(current@, entity);
            }
            current.push(entity);
            weight = weight + entity.cost;
            proof {
                assert(current@ =~= entities@.subrange(index + 1 - current@.len(), index + 1));
                assert(entities@.take(index - (current@.len() - 1)) == entities@.take(
                    index + 1 - current@.len(),
                ));
            }
        }
        index = index + 1;
    }
    proof {
        assert(entities@.take(index as int) =~= entities@);
    }
    if current.len() > 0 {
        let ghost before = contents(messages@);
        let ghost done = entities@.take(index - current@.len());
        let ghost run = current@;
        messages.push(OutboundMessage { entities: current });
        proof {
            let after = contents(messages@);
            assert(after =~= before.push(run));
            assert(entities@.skip(entities@.len() - run.len()) =~= run);
            assert(entities@.take(entities@.len() - run.len()) =~= done);
            lemma_packs_append(entities@, ceiling, before, run);
        }
    } else {
        proof {
            assert(entities@.len() == 0);
            assert(entities@.take(0) =~= entities@);
        }
    }
    Ok(messages)
}

/// The transport as the engine sees it: a bounded queue of messages that
/// keeps the order in which they were handed over. The host drains it and
/// puts the messages on the wire.
pub struct Outbox {
    queue: Vec<OutboundMessage>,
    capacity: usize,
}

impl View for Outbox {
    type V = Seq<Seq<Entity>>;

    closed spec fn view(&self) -> Seq<Seq<Entity>> {
        contents(self.queue@)
    }
}

impl Outbox {
    /// The queue never holds more messages than its capacity.
    #[verifier::type_invariant]
    pub closed spec fn wf(&self) -> bool {
        self.queue@.len() <= self.capacity
    }

    /// The number of messages the queue can hold.
    pub closed spec fn spec_capacity(&self) -> usize {
        self.capacity
    }

    /// The number of messages that can still be handed over.
    pub open spec fn spec_free(&self) -> int {
        self.spec_capacity() - self@.len()
    }

    /// An empty queue that holds up to `capacity` messages.
    pub fn new(capacity: usize) -> (empty: Self)
        ensures
            empty.wf(),
            empty@ == Seq::<Seq<Entity>>::empty(),
            empty.spec_capacity() == capacity,
    {
        let empty = Outbox { queue: Vec::new(), capacity };
        proof {
            assert(empty@ =~= Seq::<Seq<Entity>>::empty());
        }
        empty
    }

    /// The number of messages the queue can hold.
    #[verifier::when_used_as_spec(spec_capacity)]
    pub fn capacity(&self) -> (capacity: usize)
        ensures
            capacity == self.spec_capacity(),
    {
        self.capacity
    }

    /// The number of messages waiting in the queue.
    pub fn len(&self) -> (count: usize)
        ensures
            self.wf(),
            count == self@.len(),
            count <= self.spec_capacity(),
    {
        proof {
            use_type_invariant(self);
        }
        self.queue.len()
    }

    /// Hands one message to the transport. A full queue refuses it and stays
    /// as it was.
    pub fn deliver(&mut self, message: OutboundMessage) -> (outcome: Result<(), TransportError>)
        ensures
            final(self).wf(),
            final(self).spec_capacity() == old(self).spec_capacity(),
            outcome is Err <==> old(self)@.len() >= old(self).spec_capacity(),
            outcome is Ok ==> final(self)@ == old(self)@.push(message@),
            outcome is Err ==> final(self)@ == old(self)@,
    {
        proof {
            use_type_invariant(&*self);
        }
        if self.queue.len() >= self.capacity {
            return Err(TransportError);
        }
        let ghost before = self.queue@;
        let mut queue: Vec<OutboundMessage> = Vec::new();
        std::mem::swap(&mut self.queue, &mut queue);
        queue.push(message);
        proof {
            assert(contents(queue@) =~= contents(before).push(message@));
        }
        self.queue = queue;
        Ok(())
    }

    /// Takes every waiting message out of the queue, oldest first.
    pub fn drain(&mut self) -> (messages: Vec<OutboundMessage>)
        ensures
            final(self).wf(),
            final(self).spec_capacity() == old(self).spec_capacity(),
            final(self)@ == Seq::<Seq<Entity>>::empty(),
            contents(messages@) == old(self)@,
    {
        let mut messages: Vec<OutboundMessage> = Vec::new();
        std::mem::swap(&mut self.queue, &mut messages);
        proof {
            assert(self@ =~= Seq::<Seq<Entity>>::empty());
        }
        messages
    }
}

impl Durable for Outbox {
    fn snapshot(&self) -> (copy: Self)
        ensures
            copy.spec_capacity() == self.spec_capacity(),
    {
        proof {
            use_type_invariant(self);
        }
        let mut queue: Vec<OutboundMessage> = Vec::new();
        let mut index: usize = 0;
        while index < self.queue.len()
            invariant
                index <= self.queue.len(),
                queue@.len() == index,
                contents(queue@) == contents(self.queue@).take(index as int),
            decreases self.queue.len() - index,
        {
            let entities = copy_entities(&self.queue[index].entities);
            queue.push(OutboundMessage { entities });
            proof {
                assert(contents(queue@) =~= contents(self.queue@).take(index + 1));
            }
            index = index + 1;
        }
        proof {
            assert(contents(self.queue@).take(index as int) =~= contents(self.queue@));
        }
        Outbox { queue, capacity: self.capacity }
    }
}

/// Whether sending `entities` under `ceiling` through a transport that held
/// `before` and has room for `free` more messages leaves it holding `after`:
/// the messages of the packaging are appended in order, as many as fit.
pub open spec fn appended(
    entities: Seq<Entity>,
    ceiling: u64,
    before: Seq<Seq<Entity>>,
    free: int,
    after: Seq<Seq<Entity>>,
    complete: bool,
) -> bool {
    exists|messages: Seq<Seq<Entity>>|
        {
            &&& #[trigger] packs(entities, ceiling, messages)
            &&& complete <==> messages.len() <= free
            &&& complete ==> after == before + messages
            &&& !complete ==> after == before + messages.take(free)
        }
}

/// Packages a batch for the receiver and hands the messages to the
/// transport.
pub struct OutboundMessenger;

impl OutboundMessenger {
    /// Cuts `batch` into messages under the receiver's `ceiling` and hands
    /// them to `transport` in order. Stops at the first message the
    /// transport refuses and reports it; does not try again.
    pub fn send(batch: &MigrationBatch, ceiling: u64, transport: &mut Outbox) -> (outcome: Result<
        (),
        SendError,
    >)
        ensures
            final(transport).wf(),
            final(transport).spec_capacity() == old(transport).spec_capacity(),
            !all_fit(batch@, ceiling) ==> outcome == Err::<(), SendError>(SendError::Oversized)
                && final(transport)@ == old(transport)@,
            all_fit(batch@, ceiling) ==> appended(
                batch@,
                ceiling,
                old(transport)@,
                old(transport).spec_free(),
                final(transport)@,
                outcome is Ok,
            ),
            outcome is Err && all_fit(batch@, ceiling) ==> outcome == Err::<(), SendError>(
                SendError::Transport(TransportError),
            ),
    {
        proof {
            use_type_invariant(&*transport);
        }
        let messages = match package(&batch.entities, ceiling) {
            Ok(messages) => messages,
            Err(error) => {
                return Err(error);
            },
        };
        let ghost before = transport@;
        let ghost free = transport.spec_free();
        let ghost packaging = contents(messages@);
        let mut index: usize = 0;
        proof {
            assert(before + packaging.take(0) =~= before);
        }
        while index < messages.len()
            invariant
                index <= messages.len(),
                packaging == contents(messages@),
                all_fit(batch@, ceiling),
                packs(batch@, ceiling, packaging),
                before == old(transport)@,
                transport.wf(),
                transport.spec_capacity() == old(transport).spec_capacity(),
                free == old(transport).spec_capacity() - before.len(),
                transport@ == before + packaging.take(index as int),
                index <= free,
            decreases messages.len() - index,
        {
            let copy = OutboundMessage { entities: copy_entities(&messages[index].entities) };
            match transport.deliver(copy) {
                Ok(()) => {},
                Err(error) => {
                    proof {
                        assert(index == free);
                    }
                    return Err(SendError::Transport(error));
                },
            }
            proof {
                assert(before + packaging.take(index + 1) =~= (before + packaging.take(
                    index as int,
                )).push(packaging[index as int]));
            }
            index = index + 1;
        }
        proof {
            assert(packaging.take(index as int) =~= packaging);
        }
        Ok(())
    }
}

} // verus!

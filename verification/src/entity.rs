//! Migratable records and their keys.

use vstd::prelude::*;

verus! {

/// The identifier of a migratable record. Keys are totally ordered and no
/// two records of one ledger share a key.
pub type EntityKey = u64;

/// A migratable record. The engine never interprets the payload; it reads
/// the key, to order and resume the scan, and the cost, to account for the
/// compute that migrating the record takes.
#[derive(Clone, Copy, Debug, PartialEq, Eq, Structural)]
pub struct Entity {
    /// The key that orders the record.
    pub key: EntityKey,
    /// The compute that migrating the record takes, as the source measured it.
    pub cost: u64,
    /// The opaque content of the record.
    pub payload: u128,
}

/// Whether `key` lies strictly beyond the resumption cursor `after`. With no
/// cursor every key does.
pub open spec fn beyond(key: EntityKey, after: Option<EntityKey>) -> bool {
    match after {
        None => true,
        Some(last) => key > last,
    }
}

/// Whether the keys of `entities` ascend strictly, so that none repeats.
pub open spec fn ascending(entities: Seq<Entity>) -> bool {
    forall|i: int, j: int| 0 <= i < j < entities.len() ==> entities[i].key < entities[j].key
}

/// The compute that migrating all of `entities` takes.
pub open spec fn total_cost(entities: Seq<Entity>) -> nat
    decreases entities.len(),
{
    if entities.len() == 0 {
        0
    } else {
        total_cost(entities.drop_last()) + entities.last().cost as nat
    }
}

/// The part of an ascending sequence that a scan resumed after `after` still
/// has to visit: the entities whose key lies strictly beyond the cursor.
pub open spec fn pending(entities: Seq<Entity>, after: Option<EntityKey>) -> Seq<Entity> {
    entities.filter(|e: Entity| beyond(e.key, after))
}

/// Every pending record lies strictly beyond the cursor.
pub proof fn lemma_pending_beyond(entities: Seq<Entity>, after: Option<EntityKey>, index: int)
    requires
        0 <= index < pending(entities, after).len(),
    ensures
        beyond(pending(entities, after)[index].key, after),
{
    entities.lemma_filter_pred(|e: Entity| beyond(e.key, after), index);
}

/// The total cost of a sequence extended by one entity.
pub proof fn lemma_total_cost_push(entities: Seq<Entity>, e: Entity)
    ensures
        total_cost(entities.push(e)) == total_cost(entities) + e.cost,
{
    assert(entities.push(e).drop_last() =~= entities);
}

/// The total cost never shrinks as a prefix grows.
pub proof fn lemma_total_cost_prefix(entities: Seq<Entity>, shorter: int, longer: int)
    requires
        0 <= shorter <= longer <= entities.len(),
    ensures
        total_cost(entities.take(shorter)) <= total_cost(entities.take(longer)),
    decreases longer - shorter,
{
    if shorter < longer {
        lemma_total_cost_prefix(entities, shorter, longer - 1);
        assert(entities.take(longer) =~= entities.take(longer - 1).push(entities[longer - 1]));
        lemma_total_cost_push(entities.take(longer - 1), entities[longer - 1]);
    }
}

/// In an ascending sequence the pending part is the tail that starts at the
/// first key beyond the cursor.
pub proof fn lemma_pending_is_tail(entities: Seq<Entity>, after: Option<EntityKey>, start: int)
    requires
        ascending(entities),
        0 <= start <= entities.len(),
        forall|i: int| 0 <= i < start ==> !beyond(#[trigger] entities[i].key, after),
        forall|i: int| start <= i < entities.len() ==> beyond(#[trigger] entities[i].key, after),
    ensures
        pending(entities, after) == entities.skip(start),
    decreases entities.len(),
{
    let keep = |e: Entity| beyond(e.key, after);
    reveal(Seq::filter);
    if entities.len() == 0 {
        assert(entities.filter(keep) =~= entities.skip(start));
    } else if start == entities.len() {
        lemma_pending_is_tail(entities.drop_last(), after, start - 1);
        assert(!keep(entities.last()));
        assert(entities.drop_last().skip(start - 1) =~= entities.skip(start));
    } else {
        lemma_pending_is_tail(entities.drop_last(), after, start);
        assert(keep(entities.last()));
        assert(entities.drop_last().skip(start).push(entities.last()) =~= entities.skip(start));
    }
}

} // verus!

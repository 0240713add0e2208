//! The physics slot allocator: each frame the physics-active entities are
//! laid out anew on the slots of a capacity-bounded GPU buffer.

use vstd::prelude::*;
use crate::slot_table::{
    SlotTable, first_occurrences, lemma_first_occurrences, lemma_first_occurrences_of_distinct,
};

verus! {

/// The most slots that a buffer of `capacity` elements can dispatch: the
/// dispatch size is a 32-bit count.
pub open spec fn slot_limit(capacity: u64) -> nat {
    if capacity <= u32::MAX {
        capacity as nat
    } else {
        u32::MAX as nat
    }
}

/// The number of slots in use after laying out `ids` on `capacity` elements.
pub open spec fn slot_count(ids: Seq<u64>, capacity: u64) -> nat {
    let distinct = first_occurrences(ids).len();
    if distinct <= slot_limit(capacity) {
        distinct
    } else {
        slot_limit(capacity)
    }
}

/// The entities that get a slot, by slot.
pub open spec fn assigned_slots(ids: Seq<u64>, capacity: u64) -> Seq<u64> {
    first_occurrences(ids).take(slot_count(ids, capacity) as int)
}

/// The entities that the buffer has no room for, in order of appearance.
pub open spec fn excluded_entities(ids: Seq<u64>, capacity: u64) -> Seq<u64> {
    first_occurrences(ids).skip(slot_count(ids, capacity) as int)
}

/// What a rebuild of the slot table reports to the caller.
#[derive(Clone, Debug, PartialEq, Eq)]
pub struct SlotReport {
    /// Entities left without a slot: they are not simulated this frame.
    pub excluded: Vec<u64>,
    /// Whether the binding of the CPU mirror buffer has to be created anew.
    pub mirror_rebound: bool,
}

/// CPU-side bookkeeping of the physics buffer.
pub struct PhysicsData {
    dispatch_size: u32,
    buffer_length: u64,
    entities: SlotTable,
}

impl PhysicsData {
    /// The entities that own a slot, by slot.
    pub closed spec fn slots(&self) -> Seq<u64> {
        self.entities@
    }

    /// The number of slots that the physics kernel is dispatched over.
    pub closed spec fn spec_dispatch_size(&self) -> u32 {
        self.dispatch_size
    }

    /// The capacity of the buffer, in elements.
    pub closed spec fn spec_buffer_length(&self) -> u64 {
        self.buffer_length
    }

    /// The table of slots is well formed.
    pub closed spec fn index_wf(&self) -> bool {
        self.entities.wf()
    }

    /// Slots are dense, owned by one entity each, as many as are dispatched,
    /// and within the buffer's capacity.
    pub open spec fn wf(&self) -> bool {
        &&& self.index_wf()
        &&& self.slots().no_duplicates()
        &&& self.spec_dispatch_size() == self.slots().len()
        &&& self.slots().len() <= self.spec_buffer_length()
    }

    /// Bookkeeping for a buffer that holds nothing yet.
    pub fn new() -> (data: PhysicsData)
        ensures
            data.wf(),
            data.slots() == Seq::<u64>::empty(),
            data.spec_dispatch_size() == 0,
            data.spec_buffer_length() == 0,
    {
        PhysicsData { dispatch_size: 0, buffer_length: 0, entities: SlotTable::new() }
    }

    /// The number of slots that the physics kernel is dispatched over.
    pub fn dispatch_size(&self) -> (n: u32)
        ensures
            n == self.spec_dispatch_size(),
    {
        self.dispatch_size
    }

    /// The capacity of the buffer, in elements.
    pub fn buffer_length(&self) -> (n: u64)
        ensures
            n == self.spec_buffer_length(),
    {
        self.buffer_length
    }

    /// The slot that `entity` owns, if it is simulated.
    pub fn slot_of(&self, entity: u64) -> (slot: Option<usize>)
        requires
            self.wf(),
        ensures
            match slot {
                Some(i) => i < self.slots().len() && self.slots()[i as int] == entity,
                None => !self.slots().contains(entity),
            },
    {
        self.entities.slot_of(entity)
    }

    /// The entity that owns `slot`, if the slot is in use.
    pub fn entity_at(&self, slot: usize) -> (entity: Option<u64>)
        ensures
            entity == (if slot < self.slots().len() {
                Some(self.slots()[slot as int])
            } else {
                None
            }),
    {
        self.entities.entity_at(slot)
    }

    /// Lays the physics-active entities out anew on a buffer of `capacity`
    /// elements.
    ///
    /// Each entity gets one slot, in order of first appearance in `active`,
    /// until the slots run out; the rest are reported as excluded. The
    /// mirror binding is to be created anew exactly when the capacity is not
    /// the one of the frame before.
    pub fn rebuild(&mut self, active: &Vec<u64>, capacity: u64) -> (report: SlotReport)
        ensures
            final(self).wf(),
            final(self).slots() == assigned_slots(active@, capacity),
            final(self).spec_buffer_length() == capacity,
            report.excluded@ == excluded_entities(active@, capacity),
            report.mirror_rebound == (old(self).spec_buffer_length() != capacity),
    {
        let mut seen = SlotTable::collect(active);
        let n: usize = seen.len();
        let limit: u64 = if capacity <= 0xffff_ffff {
            capacity
        } else {
            0xffff_ffff
        };
        let keep: usize = if n as u64 <= limit {
            n
        } else {
            limit as usize
        };
        assert(keep == slot_count(active@, capacity));
        let mut excluded: Vec<u64> = Vec::new();
        let mut j: usize = keep;
        while j < n
            invariant
                keep <= j <= n,
                n == seen@.len(),
                excluded@ == seen@.subrange(keep as int, j as int),
            decreases n - j,
        {
            match seen.entity_at(j) {
                Some(entity) => {
                    excluded.push(entity);
                },
                None => {},
            }
            j += 1;
            assert(excluded@ =~= seen@.subrange(keep as int, j as int));
        }
        let ghost distinct = seen@;
        assert(seen@ =~= distinct.take(seen@.len() as int));
        while seen.len() > keep
            invariant
                seen.wf(),
                keep <= seen@.len() <= distinct.len(),
                seen@ == distinct.take(seen@.len() as int),
            decreases seen@.len(),
        {
            seen.pop();
            assert(seen@ =~= distinct.take(seen@.len() as int));
        }
        proof {
            seen.lemma_no_duplicates();
        }
        let mirror_rebound = self.buffer_length != capacity;
        self.entities = seen;
        self.dispatch_size = keep as u32;
        self.buffer_length = capacity;
        SlotReport { excluded, mirror_rebound }
    }
}

/// The slots handed out for `ids` are a dense permutation: with `n` the
/// number of distinct entities, capped at what the buffer can dispatch, the
/// slots in use are exactly `0..n`, each owned by one entity of `ids`, and no
/// entity owns two.
pub proof fn lemma_slots_dense_permutation(ids: Seq<u64>, capacity: u64)
    ensures
        ({
            let table = assigned_slots(ids, capacity);
            let distinct = ids.to_set().len();
            let n = if distinct <= slot_limit(capacity) {
                distinct
            } else {
                slot_limit(capacity)
            };
            &&& table.len() == n
            &&& table.no_duplicates()
            &&& forall|slot: int| 0 <= slot < n ==> ids.contains(#[trigger] table[slot])
            &&& forall|e: u64| #[trigger]
                table.contains(e) ==> 0 <= table.index_of(e) < n && table[table.index_of(e)] == e
            &&& distinct <= slot_limit(capacity) ==> forall|e: u64|
                ids.contains(e) ==> #[trigger] table.contains(e)
        }),
{
    lemma_first_occurrences(ids);
    let kept = first_occurrences(ids);
    let table = assigned_slots(ids, capacity);
    assert forall|slot: int| 0 <= slot < table.len() implies ids.contains(#[trigger] table[slot]) by {
        assert(kept[slot] == table[slot]);
        assert(kept.contains(table[slot]));
    }
    if kept.len() <= slot_limit(capacity) {
        assert(table =~= kept);
    }
}

/// Taking one entity out of a set of `n` entities and rebuilding compacts the
/// table: the entities before it keep their slots, those after it move down
/// by one, and as many slots are in use as the `n - 1` entities left can
/// fill.
pub proof fn lemma_removal_compacts(ids: Seq<u64>, removed: int, capacity: u64)
    requires
        ids.no_duplicates(),
        0 <= removed < ids.len(),
    ensures
        ({
            let before = assigned_slots(ids, capacity);
            let after = assigned_slots(ids.remove(removed), capacity);
            let left = ids.len() - 1;
            &&& after.no_duplicates()
            &&& after.len() == (if left <= slot_limit(capacity) {
                left
            } else {
                slot_limit(capacity) as int
            })
            &&& !after.contains(ids[removed])
            &&& forall|slot: int| 0 <= slot < removed && slot < after.len() ==> after[slot] == before[slot]
            &&& forall|slot: int|
                removed <= slot < after.len() ==> after[slot] == ids[slot + 1]
        }),
{
    let rest = ids.remove(removed);
    ids.remove_ensures(removed);
    assert(rest.no_duplicates()) by {
        assert forall|i: int, j: int| 0 <= i < rest.len() && 0 <= j < rest.len() && i != j implies rest[i]
            != rest[j] by {
            let a = if i < removed { i } else { i + 1 };
            let b = if j < removed { j } else { j + 1 };
            assert(rest[i] == ids[a]);
            assert(rest[j] == ids[b]);
        }
    }
    lemma_first_occurrences_of_distinct(ids);
    lemma_first_occurrences_of_distinct(rest);
    let after = assigned_slots(rest, capacity);
    if after.contains(ids[removed]) {
        let i = choose|i: int| 0 <= i < after.len() && after[i] == ids[removed];
        let a = if i < removed { i } else { i + 1 };
        assert(rest[i] == ids[a]);
    }
}

} // verus!

//! A dense table of entities: every entity in it owns one slot, and the
//! slots in use are exactly `0..len`.

use vstd::prelude::*;
use crate::entity_map::{EntityIndex, index_entries};

verus! {

/// Entities in slot order, with a hash index from entity to slot.
///
/// The view is the sequence of entities by slot: the entity at position `i`
/// owns slot `i`.
pub struct SlotTable {
    index: EntityIndex,
    order: Vec<u64>,
}

impl View for SlotTable {
    type V = Seq<u64>;

    closed spec fn view(&self) -> Seq<u64> {
        self.order@
    }
}

impl SlotTable {
    /// The index and the slot order describe the same bijection.
    pub closed spec fn wf(&self) -> bool {
        let entries = index_entries(self.index);
        &&& forall|k: u64| #[trigger]
            entries.contains_key(k) ==> (entries[k] as int) < self.order@.len()
                && self.order@[entries[k] as int] == k
        &&& forall|i: int|
            0 <= i < self.order@.len() ==> entries.contains_key(#[trigger] self.order@[i])
                && entries[self.order@[i]] == i
    }

    /// No entity owns two slots.
    pub proof fn lemma_no_duplicates(&self)
        requires
            self.wf(),
        ensures
            self@.no_duplicates(),
    {
        let entries = index_entries(self.index);
        assert forall|i: int, j: int|
            0 <= i < self@.len() && 0 <= j < self@.len() && i != j implies self@[i] != self@[j] by {
            assert(entries[self.order@[i]] == i);
            assert(entries[self.order@[j]] == j);
        }
    }

    /// A table without entities.
    pub fn new() -> (table: SlotTable)
        ensures
            table.wf(),
            table@ == Seq::<u64>::empty(),
    {
        SlotTable { index: EntityIndex::new(), order: Vec::new() }
    }

    /// The number of slots in use.
    pub fn len(&self) -> (n: usize)
        ensures
            n == self@.len(),
    {
        self.order.len()
    }

    /// The slot that `entity` owns, if it is in the table.
    pub fn slot_of(&self, entity: u64) -> (slot: Option<usize>)
        requires
            self.wf(),
        ensures
            match slot {
                Some(i) => i < self@.len() && self@[i as int] == entity,
                None => !self@.contains(entity),
            },
    {
        self.index.get(entity)
    }

    /// The entity that owns `slot`, if the slot is in use.
    pub fn entity_at(&self, slot: usize) -> (entity: Option<u64>)
        ensures
            entity == (if slot < self@.len() {
                Some(self@[slot as int])
            } else {
                None
            }),
    {
        if slot < self.order.len() {
            Some(self.order[slot])
        } else {
            None
        }
    }

    /// Gives `entity` the next free slot unless it already owns one, and
    /// returns its slot.
    pub fn assign(&mut self, entity: u64) -> (slot: usize)
        requires
            old(self).wf(),
        ensures
            final(self).wf(),
            old(self)@.contains(entity) ==> final(self)@ == old(self)@,
            !old(self)@.contains(entity) ==> final(self)@ == old(self)@.push(entity) && slot
                == old(self)@.len(),
            slot < final(self)@.len(),
            final(self)@[slot as int] == entity,
    {
        match self.index.get(entity) {
            Some(slot) => slot,
            None => {
                let slot: usize = self.order.len();
                self.order.push(entity);
                self.index.insert(entity, slot);
                slot
            },
        }
    }

    /// Frees the highest slot in use and returns the entity that owned it.
    pub fn pop(&mut self) -> (entity: Option<u64>)
        requires
            old(self).wf(),
        ensures
            final(self).wf(),
            match entity {
                Some(e) => old(self)@.len() > 0 && e == old(self)@.last() && final(self)@
                    == old(self)@.drop_last(),
                None => old(self)@.len() == 0 && final(self)@ == old(self)@,
            },
    {
        match self.order.pop() {
            Some(e) => {
                self.index.remove(e);
                Some(e)
            },
            None => None,
        }
    }

    /// The table of the entities of `ids`, each in the slot of its first
    /// appearance.
    pub fn collect(ids: &Vec<u64>) -> (table: SlotTable)
        ensures
            table.wf(),
            table@ == first_occurrences(ids@),
    {
        let mut table = SlotTable::new();
        let mut i: usize = 0;
        assert(ids@.take(0) =~= Seq::<u64>::empty());
        while i < ids.len()
            invariant
                i <= ids.len(),
                table.wf(),
                table@ == first_occurrences(ids@.take(i as int)),
            decreases ids.len() - i,
        {
            proof {
                lemma_first_occurrences_step(ids@, i as int);
            }
            table.assign(ids[i]);
            i += 1;
        }
        assert(ids@.take(i as int) =~= ids@);
        table
    }
}

/// The entities of `ids` in the order in which each first appears.
pub open spec fn first_occurrences(ids: Seq<u64>) -> Seq<u64>
    decreases ids.len(),
{
    if ids.len() == 0 {
        Seq::empty()
    } else {
        let earlier = first_occurrences(ids.drop_last());
        if earlier.contains(ids.last()) {
            earlier
        } else {
            earlier.push(ids.last())
        }
    }
}

/// Taking one more entity into account either leaves the order as it is or
/// appends the entity.
proof fn lemma_first_occurrences_step(ids: Seq<u64>, i: int)
    requires
        0 <= i < ids.len(),
    ensures
        first_occurrences(ids.take(i + 1)) == (if first_occurrences(ids.take(i)).contains(ids[i]) {
            first_occurrences(ids.take(i))
        } else {
            first_occurrences(ids.take(i)).push(ids[i])
        }),
{
    assert(ids.take(i + 1).drop_last() =~= ids.take(i));
    assert(ids.take(i + 1).last() == ids[i]);
}

/// An entity is in `first_occurrences(ids)` exactly if it is in `ids`.
proof fn lemma_first_occurrences_member(ids: Seq<u64>, e: u64)
    ensures
        first_occurrences(ids).contains(e) <==> ids.contains(e),
    decreases ids.len(),
{
    let kept = first_occurrences(ids);
    if ids.len() > 0 {
        let shorter = ids.drop_last();
        let earlier = first_occurrences(shorter);
        lemma_first_occurrences_member(shorter, e);
        if kept.contains(e) {
            let i = choose|i: int| 0 <= i < kept.len() && kept[i] == e;
            if i < earlier.len() {
                assert(earlier[i] == e);
                assert(earlier.contains(e));
                assert(shorter.contains(e));
                let j = choose|j: int| 0 <= j < shorter.len() && shorter[j] == e;
                assert(ids[j] == e);
            } else {
                assert(ids[ids.len() - 1] == e);
            }
        }
        if ids.contains(e) {
            let j = choose|j: int| 0 <= j < ids.len() && ids[j] == e;
            if j < ids.len() - 1 {
                assert(shorter[j] == e);
                assert(shorter.contains(e));
                assert(earlier.contains(e));
                let i = choose|i: int| 0 <= i < earlier.len() && earlier[i] == e;
                assert(kept[i] == e);
            } else if earlier.contains(e) {
                let i = choose|i: int| 0 <= i < earlier.len() && earlier[i] == e;
                assert(kept[i] == e);
            } else {
                assert(kept[kept.len() - 1] == e);
            }
        }
    }
}

/// `first_occurrences` keeps every entity of `ids`, each of them once.
pub proof fn lemma_first_occurrences(ids: Seq<u64>)
    ensures
        first_occurrences(ids).no_duplicates(),
        forall|e: u64| first_occurrences(ids).contains(e) <==> ids.contains(e),
        first_occurrences(ids).len() == ids.to_set().len(),
        first_occurrences(ids).len() <= ids.len(),
    decreases ids.len(),
{
    let kept = first_occurrences(ids);
    if ids.len() > 0 {
        lemma_first_occurrences(ids.drop_last());
    }
    assert forall|e: u64| kept.contains(e) <==> ids.contains(e) by {
        lemma_first_occurrences_member(ids, e);
    }
    assert(kept.to_set() =~= ids.to_set());
    kept.unique_seq_to_set();
}

/// A sequence without repetitions is its own order of first appearance.
pub proof fn lemma_first_occurrences_of_distinct(ids: Seq<u64>)
    requires
        ids.no_duplicates(),
    ensures
        first_occurrences(ids) == ids,
    decreases ids.len(),
{
    if ids.len() > 0 {
        let shorter = ids.drop_last();
        lemma_first_occurrences_of_distinct(shorter);
        if shorter.contains(ids.last()) {
            let j = choose|j: int| 0 <= j < shorter.len() && shorter[j] == ids.last();
            assert(ids[j] == ids[ids.len() - 1]);
        }
        assert(shorter.push(ids.last()) =~= ids);
    } else {
        assert(first_occurrences(ids) =~= ids);
    }
}

} // verus!

//! A store of one value per entity, kept dense so that it can be walked and
//! swept without touching the hash map's own iteration order.

use vstd::prelude::*;
use crate::slot_table::SlotTable;

verus! {

/// One value per entity. The view is the map from entity to value.
pub struct EntityTable<V> {
    slots: SlotTable,
    values: Vec<V>,
}

impl<V> View for EntityTable<V> {
    type V = Map<u64, V>;

    closed spec fn view(&self) -> Map<u64, V> {
        Map::new(
            |e: u64| self.slots@.contains(e),
            |e: u64| self.values@[self.slots@.index_of(e)],
        )
    }
}

impl<V> EntityTable<V> {
    /// Every slot has its value.
    pub closed spec fn wf(&self) -> bool {
        &&& self.slots.wf()
        &&& self.slots@.len() == self.values@.len()
    }

    /// The value stored in slot `i` is the value of the entity in slot `i`.
    proof fn lemma_view_at(&self, i: int)
        requires
            self.wf(),
            0 <= i < self.slots@.len(),
        ensures
            self@.contains_key(self.slots@[i]),
            self@[self.slots@[i]] == self.values@[i],
    {
        self.slots.lemma_no_duplicates();
        let e = self.slots@[i];
        assert(self.slots@.contains(e));
        let j = self.slots@.index_of(e);
        assert(0 <= j < self.slots@.len() && self.slots@[j] == e);
    }

    /// The table holds finitely many entities, as many as it has slots.
    pub proof fn lemma_finite(&self)
        requires
            self.wf(),
        ensures
            self@.dom().finite(),
            self@.len() == self.spec_len(),
    {
        self.slots.lemma_no_duplicates();
        assert(self@.dom() =~= self.slots@.to_set());
        vstd::seq_lib::seq_to_set_is_finite(self.slots@);
        self.slots@.unique_seq_to_set();
    }

    /// The number of slots in use.
    pub closed spec fn spec_len(&self) -> nat {
        self.slots@.len()
    }

    /// A table without entities.
    pub fn new() -> (table: EntityTable<V>)
        ensures
            table.wf(),
            table@ == Map::<u64, V>::empty(),
    {
        let table = EntityTable { slots: SlotTable::new(), values: Vec::new() };
        assert(table@ =~= Map::<u64, V>::empty());
        table
    }

    /// The number of entities in the table.
    pub fn len(&self) -> (n: usize)
        requires
            self.wf(),
        ensures
            n == self@.len(),
            n == self.spec_len(),
    {
        proof {
            self.lemma_finite();
        }
        self.slots.len()
    }

    /// The value stored for `entity`, if there is one.
    pub fn get(&self, entity: u64) -> (value: Option<&V>)
        requires
            self.wf(),
        ensures
            match value {
                Some(v) => self@.contains_key(entity) && *v == self@[entity],
                None => !self@.contains_key(entity),
            },
    {
        match self.slots.slot_of(entity) {
            Some(i) => {
                proof {
                    self.lemma_view_at(i as int);
                }
                Some(&self.values[i])
            },
            None => None,
        }
    }

    /// Stores `value` for `entity`, in place of the value it had, if any.
    pub fn insert(&mut self, entity: u64, value: V)
        requires
            old(self).wf(),
        ensures
            final(self).wf(),
            final(self)@ == old(self)@.insert(entity, value),
    {
        let ghost before = *self;
        match self.slots.slot_of(entity) {
            Some(i) => {
                self.values.set(i, value);
                proof {
                    let after = *self;
                    before.slots.lemma_no_duplicates();
                    assert forall|k: u64| #[trigger] after@.contains_key(k) implies after@[k]
                        == before@.insert(entity, value)[k] by {
                        let j = after.slots@.index_of(k);
                        assert(0 <= j < after.slots@.len() && after.slots@[j] == k);
                    }
                    assert(after@ =~= before@.insert(entity, value));
                }
            },
            None => {
                self.slots.assign(entity);
                self.values.push(value);
                proof {
                    let after = *self;
                    after.slots.lemma_no_duplicates();
                    assert forall|k: u64| before.slots@.contains(k) implies #[trigger]
                        after.slots@.contains(k) && after.slots@.index_of(k)
                        == before.slots@.index_of(k) by {
                        let j = before.slots@.index_of(k);
                        assert(0 <= j < before.slots@.len() && before.slots@[j] == k);
                        assert(after.slots@[j] == k);
                        let a = after.slots@.index_of(k);
                        assert(0 <= a < after.slots@.len() && after.slots@[a] == k);
                    }
                    assert forall|k: u64| #[trigger] after.slots@.contains(k) implies k == entity
                        || before.slots@.contains(k) by {
                        let a = after.slots@.index_of(k);
                        assert(0 <= a < after.slots@.len() && after.slots@[a] == k);
                        if a < before.slots@.len() {
                            assert(before.slots@[a] == k);
                        }
                    }
                    assert(after.slots@[before.slots@.len() as int] == entity);
                    after.lemma_view_at(before.slots@.len() as int);
                    assert(after@ =~= before@.insert(entity, value));
                }
            },
        }
    }

    /// Takes the entity in the highest slot out of the table, with its value.
    pub fn pop(&mut self) -> (entry: Option<(u64, V)>)
        requires
            old(self).wf(),
        ensures
            final(self).wf(),
            match entry {
                Some((entity, value)) => {
                    &&& old(self)@.contains_key(entity)
                    &&& old(self)@[entity] == value
                    &&& final(self)@ == old(self)@.remove(entity)
                    &&& final(self).spec_len() == old(self).spec_len() - 1
                },
                None => old(self)@ == Map::<u64, V>::empty() && final(self)@ == old(self)@,
            },
    {
        let ghost before = *self;
        match self.slots.pop() {
            Some(entity) => {
                let value = self.values.pop();
                match value {
                    Some(value) => {
                        proof {
                            let after = *self;
                            let last = before.slots@.len() - 1;
                            before.slots.lemma_no_duplicates();
                            before.lemma_view_at(last);
                            assert forall|k: u64| #[trigger]
                                after.slots@.contains(k) implies before.slots@.contains(k) && k
                                != entity && after.slots@.index_of(k) == before.slots@.index_of(
                                k,
                            ) by {
                                let a = after.slots@.index_of(k);
                                assert(0 <= a < after.slots@.len() && after.slots@[a] == k);
                                assert(before.slots@[a] == k);
                                let b = before.slots@.index_of(k);
                                assert(0 <= b < before.slots@.len() && before.slots@[b] == k);
                            }
                            assert forall|k: u64|
                                before.slots@.contains(k) && k != entity implies #[trigger]
                                after.slots@.contains(k) by {
                                let b = before.slots@.index_of(k);
                                assert(0 <= b < before.slots@.len() && before.slots@[b] == k);
                                assert(after.slots@[b] == k);
                            }
                            assert(after@ =~= before@.remove(entity));
                        }
                        Some((entity, value))
                    },
                    None => None,
                }
            },
            None => {
                assert(self@ =~= Map::<u64, V>::empty());
                None
            },
        }
    }

    /// Drops every entity that is not in `keep`, and returns the entities
    /// dropped.
    pub fn retain(&mut self, keep: &SlotTable) -> (dropped: Vec<u64>)
        requires
            old(self).wf(),
            keep.wf(),
        ensures
            final(self).wf(),
            final(self)@ == old(self)@.restrict(keep@.to_set()),
            dropped@.no_duplicates(),
            dropped@.to_set() == old(self)@.dom().difference(keep@.to_set()),
    {
        let ghost before = self@;
        let mut kept: EntityTable<V> = EntityTable::new();
        let mut dropped: Vec<u64> = Vec::new();
        while self.len() > 0
            invariant
                self.wf(),
                kept.wf(),
                keep.wf(),
                forall|k: u64| #[trigger]
                    self@.contains_key(k) ==> before.contains_key(k) && self@[k] == before[k],
                forall|k: u64| #[trigger]
                    kept@.contains_key(k) <==> before.contains_key(k) && keep@.contains(k)
                        && !self@.contains_key(k),
                forall|k: u64| #[trigger] kept@.contains_key(k) ==> kept@[k] == before[k],
                forall|k: u64| #[trigger]
                    dropped@.contains(k) <==> before.contains_key(k) && !keep@.contains(k)
                        && !self@.contains_key(k),
                dropped@.no_duplicates(),
            decreases self.spec_len(),
        {
            let ghost dropped_before = dropped@;
            match self.pop() {
                Some((entity, value)) => {
                    match keep.slot_of(entity) {
                        Some(_) => {
                            kept.insert(entity, value);
                        },
                        None => {
                            dropped.push(entity);
                            proof {
                                assert(dropped@[dropped@.len() - 1] == entity);
                                assert(!dropped_before.contains(entity));
                                assert forall|i: int, j: int|
                                    0 <= i < dropped@.len() && 0 <= j < dropped@.len() && i
                                        != j implies dropped@[i] != dropped@[j] by {
                                    if i < dropped_before.len() {
                                        assert(dropped_before[i] == dropped@[i]);
                                        assert(dropped_before.contains(dropped@[i]));
                                    }
                                    if j < dropped_before.len() {
                                        assert(dropped_before[j] == dropped@[j]);
                                        assert(dropped_before.contains(dropped@[j]));
                                    }
                                }
                                assert forall|k: u64| #[trigger]
                                    dropped@.contains(k) implies k == entity
                                    || dropped_before.contains(k) by {
                                    let i = dropped@.index_of(k);
                                    assert(0 <= i < dropped@.len() && dropped@[i] == k);
                                    if i < dropped_before.len() {
                                        assert(dropped_before[i] == k);
                                    }
                                }
                                assert forall|k: u64|
                                    dropped_before.contains(k) implies #[trigger] dropped@.contains(
                                    k,
                                ) by {
                                    let i = dropped_before.index_of(k);
                                    assert(0 <= i < dropped_before.len() && dropped_before[i]
                                        == k);
                                    assert(dropped@[i] == k);
                                }
                            }
                        },
                    }
                },
                None => {},
            }
        }
        proof {
            self.lemma_finite();
            assert(self@.dom() =~= Set::<u64>::empty()) by {
                if self@.dom().len() == 0 {
                    self@.dom().lemma_len0_is_empty();
                }
            }
            assert(kept@ =~= before.restrict(keep@.to_set()));
            assert(dropped@.to_set() =~= before.dom().difference(keep@.to_set()));
        }
        *self = kept;
        dropped
    }
}

} // verus!

//! The hash map of the host engine, keyed by entity bits.
//!
//! Nothing in this file is proved: each contract restates what the map's own
//! documentation promises, over the finite map that [`index_entries`] names.

use vstd::prelude::*;

verus! {

/// A `bevy::utils::HashMap<u64, usize>`: entity bits to a position.
#[verifier::external_body]
pub struct EntityIndex {
    map: bevy::utils::HashMap<u64, usize>,
}

/// The key-value pairs that an [`EntityIndex`] holds.
pub uninterp spec fn index_entries(index: EntityIndex) -> Map<u64, usize>;

impl EntityIndex {
    /// `hashbrown::HashMap::new`: a map that holds nothing.
    #[verifier::external_body]
    pub(crate) fn new() -> (created: EntityIndex)
        ensures
            index_entries(created).dom() == Set::<u64>::empty(),
    {
        EntityIndex { map: bevy::utils::HashMap::new() }
    }

    /// `hashbrown::HashMap::get`: the value stored under `key`, if there is
    /// one.
    #[verifier::external_body]
    pub(crate) fn get(&self, key: u64) -> (found: Option<usize>)
        ensures
            found == (if index_entries(*self).contains_key(key) {
                Some(index_entries(*self)[key])
            } else {
                None
            }),
    {
        self.map.get(&key).copied()
    }

    /// `hashbrown::HashMap::insert`: afterwards `key` maps to `value` and
    /// every other key is as before; the value that `key` had is returned.
    #[verifier::external_body]
    pub(crate) fn insert(&mut self, key: u64, value: usize) -> (previous: Option<usize>)
        ensures
            index_entries(*final(self)) == index_entries(*old(self)).insert(key, value),
            previous == (if index_entries(*old(self)).contains_key(key) {
                Some(index_entries(*old(self))[key])
            } else {
                None
            }),
    {
        self.map.insert(key, value)
    }

    /// `hashbrown::HashMap::remove`: afterwards `key` is absent and every
    /// other key is as before; the value that `key` had is returned.
    #[verifier::external_body]
    pub(crate) fn remove(&mut self, key: u64) -> (previous: Option<usize>)
        ensures
            index_entries(*final(self)) == index_entries(*old(self)).remove(key),
            previous == (if index_entries(*old(self)).contains_key(key) {
                Some(index_entries(*old(self))[key])
            } else {
                None
            }),
    {
        self.map.remove(&key)
    }
}

} // verus!

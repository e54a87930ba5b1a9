//! The set of entities destroyed in one pass of a system.

use bevy::utils::HashSet;
use vstd::prelude::*;

verus! {

/// The handles of the entities destroyed so far, kept in the hash set of
/// `bevy::utils`. A system uses it to deal with no entity twice.
#[verifier::external_body]
pub struct DespawnSet {
    entities: HashSet<u64>,
}

/// The handles a `DespawnSet` holds.
pub uninterp spec fn despawned(set: DespawnSet) -> Set<u64>;

impl DespawnSet {
    /// Calls `HashSet::new` of `hashbrown`, as `bevy::utils` exports it.
    /// Believed of it: the new set holds nothing.
    #[verifier::external_body]
    pub(crate) fn new() -> (set: Self)
        ensures
            despawned(set) == Set::<u64>::empty(),
    {
        DespawnSet { entities: HashSet::new() }
    }

    /// Calls `HashSet::contains`. Believed of it: it tells whether the set
    /// holds the handle, and leaves the set as it is.
    #[verifier::external_body]
    pub(crate) fn contains(&self, entity: u64) -> (found: bool)
        ensures
            found == despawned(*self).contains(entity),
    {
        self.entities.contains(&entity)
    }

    /// Calls `HashSet::insert`. Believed of it: afterwards the set holds the
    /// handle and whatever it held before, and nothing else.
    #[verifier::external_body]
    pub(crate) fn insert(&mut self, entity: u64)
        ensures
            despawned(*final(self)) == despawned(*old(self)).insert(entity),
    {
        self.entities.insert(entity);
    }
}

} // verus!

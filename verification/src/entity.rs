//! Entity identifiers.

use vstd::prelude::*;

verus! {

pub type EntityId = u32;

/// Allocates per-entity incrementing identifiers: an explicit counter
/// owned by the world state, never global.
pub struct EntityIdAllocator {
    next: u32,
}

impl EntityIdAllocator {
    /// The identifier the next allocation will return.
    pub closed spec fn spec_next(self) -> u32 {
        self.next
    }

    /// Hands out the next identifier and advances the counter.
    pub fn allocate(&mut self) -> (id: EntityId)
        requires
            old(self).spec_next() < u32::MAX,
        ensures
            id == old(self).spec_next(),
            final(self).spec_next() == old(self).spec_next() + 1,
    {
        let id = self.next;
        self.next = self.next + 1;
        id
    }

    /// Starts allocation over from zero.
    pub fn reset(&mut self)
        ensures
            final(self).spec_next() == 0,
    {
        self.next = 0;
    }
}

impl Default for EntityIdAllocator {
    fn default() -> (r: Self)
        ensures
            r.spec_next() == 0,
    {
        Self { next: 0 }
    }
}

} // verus!

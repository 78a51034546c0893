//! The broad-phase spatial index of the static scene.
//!
//! The movement-resolution loop only relies on the query contract: the
//! index stores `(bounding box, obstacle)` entries, and a query visits
//! exactly the stored entries whose box strictly intersects the query
//! box. This implementation keeps the entries in insertion order and
//! scans them linearly; iteration order is unspecified by the contract,
//! so insertion order is as good as any.

use vstd::prelude::*;

use crate::aabb::{Aabb, IAabb};
use crate::entity::EntityId;
use crate::shape::{IShape, Shape};
use crate::vec2::{IVec, Vec2, MAX_COORD, MAX_EXTENT};

verus! {

/// An obstacle of the scene: its entity, world position, and shape.
#[derive(Clone, Copy, Debug)]
pub struct SpatialInfo {
    pub entity_id: EntityId,
    pub position: Vec2,
    pub shape: Shape,
}

/// Mathematical model of an obstacle.
pub struct IInfo {
    pub entity_id: u32,
    pub position: IVec,
    pub shape: IShape,
}

impl View for SpatialInfo {
    type V = IInfo;

    open spec fn view(&self) -> IInfo {
        IInfo { entity_id: self.entity_id, position: self.position@, shape: self.shape@ }
    }
}

impl SpatialInfo {
    pub fn new(entity_id: EntityId, position: Vec2, shape: Shape) -> (r: Self)
        ensures
            r@ == (IInfo { entity_id, position: position@, shape: shape@ }),
    {
        SpatialInfo { entity_id, position, shape }
    }
}

/// A stored entry: the obstacle and the bounding box it was filed under.
#[derive(Clone, Copy, Debug)]
pub struct SceneEntry {
    pub aabb: Aabb,
    pub info: SpatialInfo,
}

/// Mathematical model of a stored entry.
pub struct IEntry {
    pub aabb: IAabb,
    pub info: IInfo,
}

impl View for SceneEntry {
    type V = IEntry;

    open spec fn view(&self) -> IEntry {
        IEntry { aabb: self.aabb@, info: self.info@ }
    }
}

impl IEntry {
    /// The coordinate budget every stored entry obeys: the box within
    /// the geometric range, the position and shape within the scene
    /// bound.
    pub open spec fn wf(self) -> bool {
        &&& self.aabb.in_range(MAX_COORD as int)
        &&& self.info.position.in_range(MAX_EXTENT as int)
        &&& self.info.shape.bounded(MAX_EXTENT as int)
    }
}

/// The broad-phase index over the static obstacles of a scene.
pub struct SpatialIndex {
    entries: Vec<SceneEntry>,
}

impl View for SpatialIndex {
    type V = Seq<IEntry>;

    closed spec fn view(&self) -> Seq<IEntry> {
        self.entries@.map_values(|e: SceneEntry| e@)
    }
}

impl SpatialIndex {
    /// Every stored entry obeys the coordinate budget.
    pub open spec fn wf(self) -> bool {
        forall|i: int| 0 <= i < self@.len() ==> (#[trigger] self@[i]).wf()
    }

    pub fn new() -> (r: Self)
        ensures
            r@ == Seq::<IEntry>::empty(),
            r.wf(),
    {
        let r = SpatialIndex { entries: Vec::new() };
        proof {
            assert(r@ =~= Seq::<IEntry>::empty());
        }
        r
    }

    /// Files an obstacle under a bounding box; scene setup only.
    pub fn insert(&mut self, aabb: Aabb, info: SpatialInfo)
        requires
            old(self).wf(),
            aabb@.in_range(MAX_COORD as int),
            info.position@.in_range(MAX_EXTENT as int),
            info.shape@.bounded(MAX_EXTENT as int),
        ensures
            final(self).wf(),
            final(self)@ == old(self)@.push(IEntry { aabb: aabb@, info: info@ }),
    {
        self.entries.push(SceneEntry { aabb, info });
        proof {
            assert(self@ =~= old(self)@.push(IEntry { aabb: aabb@, info: info@ }));
        }
    }

    /// Empties the index; scene reset only.
    pub fn clear(&mut self)
        ensures
            final(self)@ == Seq::<IEntry>::empty(),
            final(self).wf(),
    {
        self.entries.clear();
        proof {
            assert(self@ =~= Seq::<IEntry>::empty());
        }
    }

    pub fn len(&self) -> (n: usize)
        ensures
            n == self@.len(),
    {
        self.entries.len()
    }

    /// The stored entry at slot `i`.
    pub fn entry(&self, i: usize) -> (e: &SceneEntry)
        requires
            i < self@.len(),
        ensures
            e@ == self@[i as int],
    {
        &self.entries[i]
    }

    /// The entries whose stored box strictly intersects `query`, in
    /// storage order: the broad-phase query the resolution loop uses.
    pub fn intersection_candidates(&self, query: &Aabb) -> (found: Vec<SceneEntry>)
        requires
            self.wf(),
            query@.in_range(MAX_COORD as int),
        ensures
            found@.map_values(|e: SceneEntry| e@) == self@.filter(
                |e: IEntry| e.aabb.intersects(query@),
            ),
    {
        let ghost pred = |e: IEntry| e.aabb.intersects(query@);
        let mut found: Vec<SceneEntry> = Vec::new();
        let mut i: usize = 0;
        proof {
            assert(self@.take(0) =~= Seq::<IEntry>::empty());
            assert(found@.map_values(|e: SceneEntry| e@) =~= self@.take(0).filter(pred));
        }
        while i < self.entries.len()
            invariant
                self.wf(),
                query@.in_range(MAX_COORD as int),
                0 <= i <= self@.len(),
                self@.len() == self.entries@.len(),
                found@.map_values(|e: SceneEntry| e@) == self@.take(i as int).filter(pred),
                pred == (|e: IEntry| e.aabb.intersects(query@)),
            decreases self@.len() - i,
        {
            let entry = self.entries[i];
            proof {
                assert(entry@ == self@[i as int]);
                assert(self@[i as int].wf());
                let t1 = self@.take(i as int + 1);
                assert(t1.drop_last() =~= self@.take(i as int));
                assert(t1.last() == self@[i as int]);
                reveal_with_fuel(Seq::filter, 2);
                assert(t1.filter(pred) == if pred(t1.last()) {
                    t1.drop_last().filter(pred).push(t1.last())
                } else {
                    t1.drop_last().filter(pred)
                });
            }
            if entry.aabb.is_intersecting(query) {
                found.push(entry);
                proof {
                    assert(found@.map_values(|e: SceneEntry| e@) =~= self@.take(
                        i as int,
                    ).filter(pred).push(entry@));
                }
            }
            i = i + 1;
        }
        proof {
            assert(self@.take(self@.len() as int) =~= self@);
        }
        found
    }

    /// How many stored entries strictly intersect `query`.
    pub fn count_intersections(&self, query: &Aabb) -> (n: usize)
        requires
            self.wf(),
            query@.in_range(MAX_COORD as int),
        ensures
            n == self@.filter(|e: IEntry| e.aabb.intersects(query@)).len(),
    {
        let found = self.intersection_candidates(query);
        proof {
            assert(found@.map_values(|e: SceneEntry| e@).len() == found@.len());
        }
        found.len()
    }
}

} // verus!

//! Axis-aligned bounding box arithmetic.

use vstd::prelude::*;

use crate::vec2::{IVec, Vec2, MAX_COORD};

verus! {

pub open spec fn imin(a: int, b: int) -> int {
    if a <= b {
        a
    } else {
        b
    }
}

pub open spec fn imax(a: int, b: int) -> int {
    if a >= b {
        a
    } else {
        b
    }
}

/// Mathematical model of an axis-aligned box: a top-left corner and a size.
pub struct IAabb {
    pub top_left: IVec,
    pub size: IVec,
}

impl IAabb {
    pub open spec fn bottom_right(self) -> IVec {
        self.top_left.add(self.size)
    }

    /// Steady-state well-formedness: both size components are nonnegative.
    pub open spec fn wf(self) -> bool {
        0 <= self.size.x && 0 <= self.size.y
    }

    /// Both corners lie within `[-b, b]` on each axis.
    pub open spec fn in_range(self, b: int) -> bool {
        self.top_left.in_range(b) && self.bottom_right().in_range(b)
    }

    /// Strict open-interval overlap on both axes: boxes that touch only
    /// along an edge or at a corner do not intersect.
    pub open spec fn intersects(self, o: IAabb) -> bool {
        self.top_left.x + self.size.x > o.top_left.x && o.top_left.x + o.size.x > self.top_left.x
            && self.top_left.y + self.size.y > o.top_left.y && o.top_left.y + o.size.y
            > self.top_left.y
    }

    /// Every point of `inner` lies within `self`.
    pub open spec fn contains(self, inner: IAabb) -> bool {
        self.top_left.x <= inner.top_left.x && self.top_left.y <= inner.top_left.y
            && inner.bottom_right().x <= self.bottom_right().x && inner.bottom_right().y
            <= self.bottom_right().y
    }

    /// Centre point; each half-size coordinate rounds down.
    pub open spec fn centre(self) -> IVec {
        self.top_left.add(IVec { x: self.size.x / 2, y: self.size.y / 2 })
    }
}

/// The smallest box containing both `a` and `b`: the top-left corner is
/// the componentwise minimum, the bottom-right the componentwise maximum.
pub open spec fn union_iaabb(a: IAabb, b: IAabb) -> IAabb {
    let top_left = IVec {
        x: imin(a.top_left.x, b.top_left.x),
        y: imin(a.top_left.y, b.top_left.y),
    };
    let bottom_right = IVec {
        x: imax(a.bottom_right().x, b.bottom_right().x),
        y: imax(a.bottom_right().y, b.bottom_right().y),
    };
    IAabb { top_left, size: bottom_right.sub(top_left) }
}

/// Executable axis-aligned bounding box.
#[derive(Clone, Copy, Debug, PartialEq, Eq, Structural)]
pub struct Aabb {
    top_left_coord: Vec2,
    size: Vec2,
}

impl View for Aabb {
    type V = IAabb;

    closed spec fn view(&self) -> IAabb {
        IAabb { top_left: self.top_left_coord@, size: self.size@ }
    }
}

/// The four equal quadrants of a box.
pub struct AabbSplitFour {
    pub top_left: Aabb,
    pub top_right: Aabb,
    pub bottom_left: Aabb,
    pub bottom_right: Aabb,
}

impl Aabb {
    pub fn new(top_left_coord: Vec2, size: Vec2) -> (r: Self)
        ensures
            r@ == (IAabb { top_left: top_left_coord@, size: size@ }),
    {
        Self { top_left_coord, size }
    }

    pub fn from_centre_and_half_size(centre: Vec2, half_size: Vec2) -> (r: Self)
        requires
            centre@.in_range(4 * MAX_COORD as int),
            half_size@.in_range(4 * MAX_COORD as int),
        ensures
            r@.top_left == centre@.sub(half_size@),
            r@.size == (IVec { x: 2 * half_size@.x, y: 2 * half_size@.y }),
    {
        let top_left_coord = centre.sub(half_size);
        let size = half_size.add(half_size);
        Self::new(top_left_coord, size)
    }

    fn bottom_right_coord(&self) -> (r: Vec2)
        requires
            self@.in_range(MAX_COORD as int),
        ensures
            r@ == self@.bottom_right(),
    {
        self.top_left_coord.add(self.size)
    }

    /// The smallest box containing both `a` and `b`.
    pub fn union(a: &Aabb, b: &Aabb) -> (r: Self)
        requires
            a@.in_range(MAX_COORD as int),
            b@.in_range(MAX_COORD as int),
        ensures
            r@ == union_iaabb(a@, b@),
    {
        let a_bottom_right = a.bottom_right_coord();
        let b_bottom_right = b.bottom_right_coord();
        let tlx: i64 = if a.top_left_coord.x <= b.top_left_coord.x {
            a.top_left_coord.x
        } else {
            b.top_left_coord.x
        };
        let tly: i64 = if a.top_left_coord.y <= b.top_left_coord.y {
            a.top_left_coord.y
        } else {
            b.top_left_coord.y
        };
        let brx: i64 = if a_bottom_right.x >= b_bottom_right.x {
            a_bottom_right.x
        } else {
            b_bottom_right.x
        };
        let bry: i64 = if a_bottom_right.y >= b_bottom_right.y {
            a_bottom_right.y
        } else {
            b_bottom_right.y
        };
        Self { top_left_coord: Vec2 { x: tlx, y: tly }, size: Vec2 { x: brx - tlx, y: bry - tly } }
    }

    pub fn size(&self) -> (r: Vec2)
        ensures
            r@ == self@.size,
    {
        self.size
    }

    /// Strict overlap test: edge-touching boxes do not intersect.
    pub fn is_intersecting(&self, other: &Aabb) -> (r: bool)
        requires
            self@.in_range(MAX_COORD as int),
            other@.in_range(MAX_COORD as int),
        ensures
            r == self@.intersects(other@),
    {
        self.top_left_coord.x + self.size.x > other.top_left_coord.x
            && other.top_left_coord.x + other.size.x > self.top_left_coord.x
            && self.top_left_coord.y + self.size.y > other.top_left_coord.y
            && other.top_left_coord.y + other.size.y > self.top_left_coord.y
    }

    pub fn centre(&self) -> (r: Vec2)
        requires
            self@.wf(),
            self@.in_range(MAX_COORD as int),
        ensures
            r@ == self@.centre(),
    {
        self.top_left_coord.add(Vec2 { x: self.size.x / 2, y: self.size.y / 2 })
    }

    /// Divides the box into four quadrants, each of half (rounded-down) size.
    pub fn split_four(&self) -> (r: AabbSplitFour)
        requires
            self@.wf(),
            self@.in_range(MAX_COORD as int),
        ensures
            r.top_left@ == (IAabb { top_left: self@.top_left, size: self@.half_size() }),
            r.top_right@ == (IAabb {
                top_left: self@.top_left.add(IVec { x: self@.half_size().x, y: 0 }),
                size: self@.half_size(),
            }),
            r.bottom_left@ == (IAabb {
                top_left: self@.top_left.add(IVec { x: 0, y: self@.half_size().y }),
                size: self@.half_size(),
            }),
            r.bottom_right@ == (IAabb {
                top_left: self@.top_left.add(self@.half_size()),
                size: self@.half_size(),
            }),
    {
        let size = Vec2 { x: self.size.x / 2, y: self.size.y / 2 };
        AabbSplitFour {
            top_left: Self::new(self.top_left_coord, size),
            top_right: Self::new(
                Vec2 { x: self.top_left_coord.x + size.x, y: self.top_left_coord.y },
                size,
            ),
            bottom_left: Self::new(
                Vec2 { x: self.top_left_coord.x, y: self.top_left_coord.y + size.y },
                size,
            ),
            bottom_right: Self::new(self.top_left_coord.add(size), size),
        }
    }

    /// Scales the box by two holding its centre fixed.
    pub fn double_about_centre(&self) -> (r: Self)
        requires
            self@.wf(),
            self@.in_range(MAX_COORD as int),
        ensures
            r@.top_left == self@.centre().sub(self@.size),
            r@.size == (IVec { x: 2 * self@.size.x, y: 2 * self@.size.y }),
    {
        proof {
            vstd::arithmetic::div_mod::lemma_div_pos_is_pos(self@.size.x, 2);
            vstd::arithmetic::div_mod::lemma_div_pos_is_pos(self@.size.y, 2);
            vstd::arithmetic::div_mod::lemma_div_nonincreasing(self@.size.x, 2);
            vstd::arithmetic::div_mod::lemma_div_nonincreasing(self@.size.y, 2);
        }
        Self::from_centre_and_half_size(self.centre(), self.size)
    }
}

impl IAabb {
    /// Half the size, each coordinate rounded down.
    pub open spec fn half_size(self) -> IVec {
        IVec { x: self.size.x / 2, y: self.size.y / 2 }
    }
}

/// The union of two boxes contains both, and is minimal: any box that
/// contains both inputs contains their union.
pub proof fn lemma_union_contains_and_minimal(a: IAabb, b: IAabb)
    ensures
        union_iaabb(a, b).contains(a),
        union_iaabb(a, b).contains(b),
        forall|c: IAabb| c.contains(a) && c.contains(b) ==> c.contains(union_iaabb(a, b)),
{
}

/// The union of two boxes is at least the size of either input.
pub proof fn lemma_union_size_not_smaller(a: IAabb, b: IAabb)
    ensures
        union_iaabb(a, b).size.x >= a.size.x,
        union_iaabb(a, b).size.y >= a.size.y,
        union_iaabb(a, b).size.x >= b.size.x,
        union_iaabb(a, b).size.y >= b.size.y,
{
}

/// Box intersection is symmetric.
pub proof fn lemma_is_intersecting_symmetric(a: IAabb, b: IAabb)
    ensures
        a.intersects(b) == b.intersects(a),
{
}

/// Boxes that touch only along an edge never intersect.
pub proof fn lemma_edge_touching_not_intersecting(a: IAabb, b: IAabb)
    requires
        a.bottom_right().x == b.top_left.x || b.bottom_right().x == a.top_left.x
            || a.bottom_right().y == b.top_left.y || b.bottom_right().y == a.top_left.y,
    ensures
        !a.intersects(b),
{
}

} // verus!

//! Directed 2D segments and exact segment-vs-segment intersection.
//!
//! A segment `P` is `p + t*r` for `t` in `[0, 1]`; a segment `Q` is
//! `q + u*s` for `u` in `[0, 1]`. Writing `x` for the 2D cross product,
//! the lines cross where `t = ((q - p) x s) / (r x s)` and
//! `u = ((q - p) x r) / (r x s)`. All classification is exact integer
//! arithmetic: parallel means the cross product is exactly zero, and a
//! vertex touch means `u` is exactly `0` or `1`.

use vstd::prelude::*;

use crate::aabb::{imax, imin, Aabb, IAabb};
use crate::ratio::{IRatio, Ratio};
use crate::vec2::{lemma_mul_bound, IVec, Vec2, MAX_COORD};

verus! {

/// Mathematical model of a directed segment.
pub struct ISeg {
    pub start: IVec,
    pub end: IVec,
}

impl ISeg {
    pub open spec fn vector(self) -> IVec {
        self.end.sub(self.start)
    }

    pub open spec fn add_vector(self, v: IVec) -> ISeg {
        ISeg { start: self.start.add(v), end: self.end.add(v) }
    }

    pub open spec fn in_range(self, b: int) -> bool {
        self.start.in_range(b) && self.end.in_range(b)
    }
}

/// A grazing, non-blocking contact.
#[derive(Clone, Copy, Debug, PartialEq, Eq, Structural)]
pub enum IntersectionSlide {
    Colinear,
    Vertex,
}

/// Why two segments do not intersect.
#[derive(Clone, Copy, Debug, PartialEq, Eq, Structural)]
pub enum IntersectionNone {
    NonParallelNonIntersecting,
    ColinearNonOverlapping,
    ParallelNonColinear,
}

/// A blocking crossing at a fraction of the first segment, or a slide.
#[derive(Clone, Copy, Debug, PartialEq, Eq, Structural)]
pub enum IntersectionOrSlide {
    IntersectionWithVectorMultiplier(Ratio),
    Slide(IntersectionSlide),
}

impl IntersectionOrSlide {
    /// The blocking fraction, if this outcome is a crossing.
    pub fn intersection_vector_multiplier(&self) -> (r: Option<Ratio>)
        ensures
            match *self {
                IntersectionOrSlide::IntersectionWithVectorMultiplier(m) => r == Some(m),
                IntersectionOrSlide::Slide(_) => r == None::<Ratio>,
            },
    {
        match *self {
            IntersectionOrSlide::IntersectionWithVectorMultiplier(multiplier) => Some(multiplier),
            _ => None,
        }
    }
}

pub type IntersectionResult = Result<IntersectionOrSlide, IntersectionNone>;

/// Classified intersection of two directed segments, over the model.
pub enum IOutcome {
    Crossing(IRatio),
    SlideColinear,
    SlideVertex,
    MissNonParallel,
    MissColinear,
    MissParallel,
}

/// The exact classification of `a` against `b`, by the crossing
/// formulas above with a zero tolerance. The crossing fraction is kept
/// with a positive denominator `|r x s|`.
pub open spec fn seg_intersection(a: ISeg, b: ISeg) -> IOutcome {
    let r = a.vector();
    let s = b.vector();
    let rxs = r.cross(s);
    let pq = b.start.sub(a.start);
    if rxs == 0 {
        if pq.cross(r) == 0 {
            let r_len2 = r.dot(r);
            let t0 = pq.dot(r);
            let t1 = pq.add(s).dot(r);
            if imin(t0, t1) <= r_len2 && imax(t0, t1) >= 0 {
                IOutcome::SlideColinear
            } else {
                IOutcome::MissColinear
            }
        } else {
            IOutcome::MissParallel
        }
    } else {
        let d = if rxs > 0 {
            rxs
        } else {
            -rxs
        };
        let tn = if rxs > 0 {
            pq.cross(s)
        } else {
            -pq.cross(s)
        };
        let un = if rxs > 0 {
            pq.cross(r)
        } else {
            -pq.cross(r)
        };
        if tn < 0 || tn > d {
            IOutcome::MissNonParallel
        } else if un == 0 || un == d {
            IOutcome::SlideVertex
        } else if un < 0 || un > d {
            IOutcome::MissNonParallel
        } else {
            IOutcome::Crossing(IRatio { num: tn, den: d })
        }
    }
}

/// The executable result agrees with the model outcome.
pub open spec fn outcome_matches(r: IntersectionResult, m: IOutcome) -> bool {
    match m {
        IOutcome::Crossing(rat) => match r {
            Ok(IntersectionOrSlide::IntersectionWithVectorMultiplier(x)) => x@ == rat && x.wf(),
            _ => false,
        },
        IOutcome::SlideColinear => r == Ok::<IntersectionOrSlide, IntersectionNone>(
            IntersectionOrSlide::Slide(IntersectionSlide::Colinear),
        ),
        IOutcome::SlideVertex => r == Ok::<IntersectionOrSlide, IntersectionNone>(
            IntersectionOrSlide::Slide(IntersectionSlide::Vertex),
        ),
        IOutcome::MissNonParallel => r == Err::<IntersectionOrSlide, IntersectionNone>(
            IntersectionNone::NonParallelNonIntersecting,
        ),
        IOutcome::MissColinear => r == Err::<IntersectionOrSlide, IntersectionNone>(
            IntersectionNone::ColinearNonOverlapping,
        ),
        IOutcome::MissParallel => r == Err::<IntersectionOrSlide, IntersectionNone>(
            IntersectionNone::ParallelNonColinear,
        ),
    }
}

/// World-space bounding box of a segment placed at `pos`.
pub open spec fn seg_aabb(s: ISeg, pos: IVec) -> IAabb {
    let a = s.start.add(pos);
    let b = s.end.add(pos);
    let top_left = IVec { x: imin(a.x, b.x), y: imin(a.y, b.y) };
    let bottom_right = IVec { x: imax(a.x, b.x), y: imax(a.y, b.y) };
    IAabb { top_left, size: bottom_right.sub(top_left) }
}

/// Executable directed segment in sub-pixel coordinates.
#[derive(Clone, Copy, Debug, PartialEq, Eq, Structural)]
pub struct LineSegment {
    pub start: Vec2,
    pub end: Vec2,
}

impl View for LineSegment {
    type V = ISeg;

    open spec fn view(&self) -> ISeg {
        ISeg { start: self.start@, end: self.end@ }
    }
}

impl LineSegment {
    pub fn new(start: Vec2, end: Vec2) -> (r: Self)
        ensures
            r@ == (ISeg { start: start@, end: end@ }),
    {
        Self { start, end }
    }

    pub fn add_vector(&self, vector: Vec2) -> (r: Self)
        requires
            self@.in_range(2 * MAX_COORD as int),
            vector@.in_range(2 * MAX_COORD as int),
        ensures
            r@ == self@.add_vector(vector@),
    {
        Self { start: self.start.add(vector), end: self.end.add(vector) }
    }

    pub fn vector(&self) -> (r: Vec2)
        requires
            self@.in_range(2 * MAX_COORD as int),
        ensures
            r@ == self@.vector(),
    {
        self.end.sub(self.start)
    }

    /// Classifies the intersection of `self` against `other`, exactly.
    pub fn intersection(&self, other: &LineSegment) -> (res: IntersectionResult)
        requires
            self@.in_range(MAX_COORD as int),
            other@.in_range(MAX_COORD as int),
        ensures
            outcome_matches(res, seg_intersection(self@, other@)),
    {
        let r = self.vector();
        let s = other.vector();
        let rxs: i64 = r.cross(s);
        let p_to_q = other.start.sub(self.start);
        proof {
            lemma_mul_bound(p_to_q@.x, s@.y, 0x4000_0000, 0x4000_0000);
            lemma_mul_bound(p_to_q@.y, s@.x, 0x4000_0000, 0x4000_0000);
            lemma_mul_bound(p_to_q@.x, r@.y, 0x4000_0000, 0x4000_0000);
            lemma_mul_bound(p_to_q@.y, r@.x, 0x4000_0000, 0x4000_0000);
            lemma_mul_bound(p_to_q@.x, r@.x, 0x4000_0000, 0x4000_0000);
            lemma_mul_bound(p_to_q@.y, r@.y, 0x4000_0000, 0x4000_0000);
            lemma_mul_bound(s@.x, r@.x, 0x4000_0000, 0x4000_0000);
            lemma_mul_bound(s@.y, r@.y, 0x4000_0000, 0x4000_0000);
            lemma_mul_bound(r@.x, s@.y, 0x4000_0000, 0x4000_0000);
            lemma_mul_bound(r@.y, s@.x, 0x4000_0000, 0x4000_0000);
            assert(0x4000_0000int * 0x4000_0000int == 0x1000_0000_0000_0000int);
        }
        if rxs == 0 {
            // The lines are parallel.
            if p_to_q.cross(r) == 0 {
                // The lines are colinear: the range `t0..t1` overlaps
                // `0..r_len2` iff the segments overlap.
                let r_len2: i64 = r.dot(r);
                let t0: i64 = p_to_q.dot(r);
                let s_dot_r: i64 = s.dot(r);
                proof {
                    let pqv = p_to_q@;
                    let sv = s@;
                    let rv = r@;
                    assert((pqv.x + sv.x) * rv.x + (pqv.y + sv.y) * rv.y == (pqv.x * rv.x + pqv.y
                        * rv.y) + (sv.x * rv.x + sv.y * rv.y)) by (nonlinear_arith);
                    assert(pqv.add(sv).dot(rv) == pqv.dot(rv) + sv.dot(rv));
                }
                let t1: i64 = t0 + s_dot_r;
                if t0 < t1 {
                    if t0 <= r_len2 && t1 >= 0 {
                        Ok(IntersectionOrSlide::Slide(IntersectionSlide::Colinear))
                    } else {
                        Err(IntersectionNone::ColinearNonOverlapping)
                    }
                } else {
                    if t1 <= r_len2 && t0 >= 0 {
                        Ok(IntersectionOrSlide::Slide(IntersectionSlide::Colinear))
                    } else {
                        Err(IntersectionNone::ColinearNonOverlapping)
                    }
                }
            } else {
                // Parallel but not colinear: no intersection anywhere.
                Err(IntersectionNone::ParallelNonColinear)
            }
        } else {
            let tn_raw: i64 = p_to_q.cross(s);
            let un_raw: i64 = p_to_q.cross(r);
            let d: i64 = if rxs > 0 {
                rxs
            } else {
                -rxs
            };
            let tn: i64 = if rxs > 0 {
                tn_raw
            } else {
                -tn_raw
            };
            let un: i64 = if rxs > 0 {
                un_raw
            } else {
                -un_raw
            };
            if tn < 0 || tn > d {
                Err(IntersectionNone::NonParallelNonIntersecting)
            } else if un == 0 || un == d {
                // The segments touch at an endpoint of `other`: a
                // grazing, non-blocking contact.
                Ok(IntersectionOrSlide::Slide(IntersectionSlide::Vertex))
            } else if un < 0 || un > d {
                Err(IntersectionNone::NonParallelNonIntersecting)
            } else {
                Ok(
                    IntersectionOrSlide::IntersectionWithVectorMultiplier(Ratio::new(tn, d)),
                )
            }
        }
    }

    /// World-space bounding box of this segment placed at `top_left`.
    pub fn aabb(&self, top_left: Vec2) -> (r: Aabb)
        requires
            self@.in_range(MAX_COORD as int),
            top_left@.in_range(MAX_COORD as int),
        ensures
            r@ == seg_aabb(self@, top_left@),
    {
        let start = self.start.add(top_left);
        let end = self.end.add(top_left);
        let x_min: i64 = if start.x <= end.x {
            start.x
        } else {
            end.x
        };
        let x_max: i64 = if start.x >= end.x {
            start.x
        } else {
            end.x
        };
        let y_min: i64 = if start.y <= end.y {
            start.y
        } else {
            end.y
        };
        let y_max: i64 = if start.y >= end.y {
            start.y
        } else {
            end.y
        };
        let top_left_corner = Vec2 { x: x_min, y: y_min };
        let bottom_right = Vec2 { x: x_max, y: y_max };
        Aabb::new(top_left_corner, bottom_right.sub(top_left_corner))
    }
}

/// The fraction reported for a crossing is exactly the analytic one:
/// writing `r`, `s` for the two segment vectors and `pq` for the vector
/// between their starts, `num/den == (pq x s)/(r x s)` with `den > 0`.
pub proof fn lemma_crossing_is_analytic(a: ISeg, b: ISeg)
    ensures
        seg_intersection(a, b) matches IOutcome::Crossing(rat) ==> {
            &&& rat.wf()
            &&& !rat.is_zero() || b.start.sub(a.start).cross(b.vector()) == 0
            &&& rat.num * a.vector().cross(b.vector()) == b.start.sub(a.start).cross(b.vector())
                * rat.den
        },
{
    let r = a.vector();
    let s = b.vector();
    let rxs = r.cross(s);
    let pq = b.start.sub(a.start);
    if rxs != 0 {
        if rxs > 0 {
        } else {
            assert((-pq.cross(s)) * rxs == pq.cross(s) * (-rxs)) by (nonlinear_arith);
        }
    }
}

} // verus!

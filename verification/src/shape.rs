//! Shapes: the closed set of collidable geometries, and the swept
//! vertex-vs-edge collision test.
//!
//! A shape is either an axis-aligned rectangle, given by its dimensions
//! with local origin at its own top-left, or a directed line segment in
//! local coordinates. A shape is placed in world space by pairing it
//! with a position vector.
//!
//! The swept test is bidirectional: the leading vertices of the mover
//! are swept against the facing edges of the stationary shape, and the
//! leading vertices of the stationary shape are swept backwards against
//! the facing edges of the mover, so a stationary corner cannot pierce
//! a moving edge unnoticed.

use vstd::prelude::*;

use crate::aabb::{Aabb, IAabb};
use crate::best::BestMap;
use crate::line_segment::{
    seg_aabb, seg_intersection, IOutcome, ISeg, IntersectionOrSlide, LineSegment,
};
use crate::ratio::{IRatio, Ratio};
use crate::vec2::{IVec, Vec2, MAX_COORD, MAX_EXTENT, MAX_MOVEMENT, MAX_POSITION};

verus! {

/// Mathematical model of a shape.
pub enum IShape {
    Rect(IVec),
    Seg(ISeg),
}

impl IShape {
    /// Every local coordinate lies in `[-b, b]`; rectangle dimensions
    /// are nonnegative, matching the local-space model `[0, dimensions]`.
    pub open spec fn bounded(self, b: int) -> bool {
        match self {
            IShape::Rect(dims) => 0 <= dims.x <= b && 0 <= dims.y <= b,
            IShape::Seg(s) => s.in_range(b),
        }
    }
}

/// The leading vertices of a rectangle relative to a movement
/// direction, in emission order: for vertical movement the two corners
/// of the leading horizontal edge come first, then the corner of the
/// leading vertical edge if the direction also has a horizontal
/// component; for purely horizontal movement only the two corners of
/// the leading vertical edge; none for a zero direction.
pub open spec fn rect_vertices_facing(dims: IVec, dir: IVec) -> Seq<IVec> {
    let top_left = IVec { x: 0, y: 0 };
    let top_right = IVec { x: dims.x, y: 0 };
    let bottom_left = IVec { x: 0, y: dims.y };
    let bottom_right = dims;
    if dir.y > 0 {
        if dir.x > 0 {
            seq![bottom_left, bottom_right, top_right]
        } else if dir.x < 0 {
            seq![bottom_left, bottom_right, top_left]
        } else {
            seq![bottom_left, bottom_right]
        }
    } else if dir.y < 0 {
        if dir.x > 0 {
            seq![top_left, top_right, bottom_right]
        } else if dir.x < 0 {
            seq![top_left, top_right, bottom_left]
        } else {
            seq![top_left, top_right]
        }
    } else {
        if dir.x > 0 {
            seq![top_right, bottom_right]
        } else if dir.x < 0 {
            seq![top_left, bottom_left]
        } else {
            Seq::empty()
        }
    }
}

/// The facing edges of a rectangle relative to a movement direction:
/// the bottom or top edge by the sign of `dir.y`, then the right or
/// left edge by the sign of `dir.x` (neither when the sign is zero).
pub open spec fn rect_edges_facing(dims: IVec, dir: IVec) -> Seq<ISeg> {
    let top_left = IVec { x: 0, y: 0 };
    let top_right = IVec { x: dims.x, y: 0 };
    let bottom_left = IVec { x: 0, y: dims.y };
    let bottom_right = dims;
    let top = ISeg { start: top_left, end: top_right };
    let right = ISeg { start: top_right, end: bottom_right };
    let bottom = ISeg { start: bottom_right, end: bottom_left };
    let left = ISeg { start: bottom_left, end: top_left };
    let horizontal = if dir.y > 0 {
        seq![bottom]
    } else if dir.y < 0 {
        seq![top]
    } else {
        Seq::empty()
    };
    let vertical = if dir.x > 0 {
        seq![right]
    } else if dir.x < 0 {
        seq![left]
    } else {
        Seq::empty()
    };
    horizontal + vertical
}

/// The leading vertices of a shape: a segment has no interior to face
/// away from, so it always offers both endpoints.
pub open spec fn shape_vertices_facing(sh: IShape, dir: IVec) -> Seq<IVec> {
    match sh {
        IShape::Rect(dims) => rect_vertices_facing(dims, dir),
        IShape::Seg(s) => seq![s.start, s.end],
    }
}

/// The facing edges of a shape: a segment always offers itself.
pub open spec fn shape_edges_facing(sh: IShape, dir: IVec) -> Seq<ISeg> {
    match sh {
        IShape::Rect(dims) => rect_edges_facing(dims, dir),
        IShape::Seg(s) => seq![s],
    }
}

/// World bounding box of a placed shape.
pub open spec fn shape_aabb(sh: IShape, pos: IVec) -> IAabb {
    match sh {
        IShape::Rect(dims) => IAabb { top_left: pos, size: dims },
        IShape::Seg(s) => seg_aabb(s, pos),
    }
}

/// Executable axis-aligned rectangle, by its dimensions.
#[derive(Clone, Copy, Debug, PartialEq, Eq, Structural)]
pub struct AxisAlignedRect {
    dimensions: Vec2,
}

impl View for AxisAlignedRect {
    type V = IVec;

    closed spec fn view(&self) -> IVec {
        self.dimensions@
    }
}

impl AxisAlignedRect {
    pub fn new(dimensions: Vec2) -> (r: Self)
        ensures
            r@ == dimensions@,
    {
        Self { dimensions }
    }

    pub fn dimensions(&self) -> (r: Vec2)
        ensures
            r@ == self@,
    {
        self.dimensions
    }
}

/// Executable shape: the closed set of collidable geometries.
#[derive(Clone, Copy, Debug, PartialEq, Eq, Structural)]
pub enum Shape {
    AxisAlignedRect(AxisAlignedRect),
    LineSegment(LineSegment),
}

impl View for Shape {
    type V = IShape;

    open spec fn view(&self) -> IShape {
        match *self {
            Shape::AxisAlignedRect(r) => IShape::Rect(r@),
            Shape::LineSegment(s) => IShape::Seg(s@),
        }
    }
}

impl Shape {
    /// World bounding box of this shape placed at `top_left`.
    pub fn aabb(&self, top_left: Vec2) -> (r: Aabb)
        requires
            self@.bounded(MAX_COORD as int),
            top_left@.in_range(MAX_COORD as int),
        ensures
            r@ == shape_aabb(self@, top_left@),
    {
        match self {
            Shape::AxisAlignedRect(rect) => Aabb::new(top_left, rect.dimensions()),
            Shape::LineSegment(line_segment) => line_segment.aabb(top_left),
        }
    }

    /// The leading vertices of this shape for a movement direction, in
    /// emission order.
    pub fn vertices_facing(&self, direction: Vec2) -> (vs: Vec<Vec2>)
        ensures
            vs@.len() == shape_vertices_facing(self@, direction@).len(),
            forall|i: int|
                0 <= i < vs@.len() ==> vs@[i]@ == shape_vertices_facing(self@, direction@)[i],
    {
        match self {
            Shape::AxisAlignedRect(rect) => {
                let dims = rect.dimensions();
                let top_left = Vec2 { x: 0, y: 0 };
                let top_right = Vec2 { x: dims.x, y: 0 };
                let bottom_left = Vec2 { x: 0, y: dims.y };
                let bottom_right = dims;
                let mut vs: Vec<Vec2> = Vec::new();
                if direction.y > 0 {
                    vs.push(bottom_left);
                    vs.push(bottom_right);
                    if direction.x > 0 {
                        vs.push(top_right);
                    } else if direction.x < 0 {
                        vs.push(top_left);
                    }
                } else if direction.y < 0 {
                    vs.push(top_left);
                    vs.push(top_right);
                    if direction.x > 0 {
                        vs.push(bottom_right);
                    } else if direction.x < 0 {
                        vs.push(bottom_left);
                    }
                } else {
                    if direction.x > 0 {
                        vs.push(top_right);
                        vs.push(bottom_right);
                    } else if direction.x < 0 {
                        vs.push(top_left);
                        vs.push(bottom_left);
                    }
                }
                vs
            },
            Shape::LineSegment(line_segment) => {
                let mut vs: Vec<Vec2> = Vec::new();
                vs.push(line_segment.start);
                vs.push(line_segment.end);
                vs
            },
        }
    }

    /// The facing edges of this shape for a movement direction, in
    /// emission order, in local coordinates.
    pub fn edges_facing(&self, direction: Vec2) -> (es: Vec<LineSegment>)
        ensures
            es@.len() == shape_edges_facing(self@, direction@).len(),
            forall|i: int|
                0 <= i < es@.len() ==> es@[i]@ == shape_edges_facing(self@, direction@)[i],
    {
        match self {
            Shape::AxisAlignedRect(rect) => {
                let dims = rect.dimensions();
                let top_left = Vec2 { x: 0, y: 0 };
                let top_right = Vec2 { x: dims.x, y: 0 };
                let bottom_left = Vec2 { x: 0, y: dims.y };
                let bottom_right = dims;
                let mut es: Vec<LineSegment> = Vec::new();
                if direction.y > 0 {
                    es.push(LineSegment::new(bottom_right, bottom_left));
                } else if direction.y < 0 {
                    es.push(LineSegment::new(top_left, top_right));
                }
                if direction.x > 0 {
                    es.push(LineSegment::new(top_right, bottom_right));
                } else if direction.x < 0 {
                    es.push(LineSegment::new(bottom_left, top_left));
                }
                es
            },
            Shape::LineSegment(line_segment) => {
                let mut es: Vec<LineSegment> = Vec::new();
                es.push(*line_segment);
                es
            },
        }
    }
}

/// The probe segment for a vertex at world position `v` swept by `m`.
pub open spec fn probe_seg(v: IVec, m: IVec) -> ISeg {
    ISeg { start: v, end: v.add(m) }
}

/// The ordered candidate `(probe, edge)` pairs of one sweep direction:
/// every world-space probe of a leading vertex against every facing
/// edge, vertices outermost.
pub open spec fn one_direction_pairs(
    vs: Seq<IVec>,
    pos: IVec,
    es: Seq<ISeg>,
    epos: IVec,
    m: IVec,
) -> Seq<(ISeg, ISeg)> {
    Seq::new(
        vs.len() * es.len(),
        |k: int|
            (
                probe_seg(vs[k / (es.len() as int)].add(pos), m),
                es[k % (es.len() as int)].add_vector(epos),
            ),
    )
}

/// All candidate pairs of the bidirectional sweep: the mover's leading
/// vertices against the stationary facing edges, then the stationary
/// leading vertices (swept backwards) against the mover's facing edges.
pub open spec fn sweep_pairs(
    mover: IShape,
    pos: IVec,
    stat: IShape,
    spos: IVec,
    m: IVec,
) -> Seq<(ISeg, ISeg)> {
    one_direction_pairs(
        shape_vertices_facing(mover, m),
        pos,
        shape_edges_facing(stat, m.neg()),
        spos,
        m,
    ) + one_direction_pairs(
        shape_vertices_facing(stat, m.neg()),
        spos,
        shape_edges_facing(mover, m),
        pos,
        m.neg(),
    )
}

/// Folds one candidate pair into the best contact so far. Only a
/// crossing blocks; slides and misses never do. A crossing replaces the
/// current best when its ratio is less than or equal, so of candidates
/// with exactly equal ratios the one emitted later wins.
pub open spec fn fold_candidate(
    cur: Option<(IRatio, ISeg)>,
    pair: (ISeg, ISeg),
) -> Option<(IRatio, ISeg)> {
    match seg_intersection(pair.0, pair.1) {
        IOutcome::Crossing(rat) => match cur {
            None => Some((rat, pair.1)),
            Some((k0, e0)) => if rat.le(k0) {
                Some((rat, pair.1))
            } else {
                Some((k0, e0))
            },
        },
        _ => cur,
    }
}

/// Left fold of `fold_candidate` over the candidates in emission order.
pub open spec fn fold_candidates(
    init: Option<(IRatio, ISeg)>,
    pairs: Seq<(ISeg, ISeg)>,
) -> Option<(IRatio, ISeg)>
    decreases pairs.len(),
{
    if pairs.len() == 0 {
        init
    } else {
        fold_candidate(fold_candidates(init, pairs.drop_last()), pairs.last())
    }
}

/// The contact reported by the bidirectional sweep, if any: the minimal
/// crossing ratio over all candidate pairs, under the tie rule of
/// `fold_candidate`.
pub open spec fn sweep_outcome(
    mover: IShape,
    pos: IVec,
    stat: IShape,
    spos: IVec,
    m: IVec,
) -> Option<(IRatio, ISeg)> {
    fold_candidates(None, sweep_pairs(mover, pos, stat, spos, m))
}

/// The fraction of an attempted movement that is safe to apply, and the
/// world-space edge responsible for stopping it.
#[derive(Clone, Copy, Debug, PartialEq, Eq, Structural)]
pub struct CollisionInfo {
    pub movement_vector_ratio: Ratio,
    pub colliding_with: LineSegment,
}

/// The executable collision result agrees with the model contact.
pub open spec fn collision_matches(
    res: Option<CollisionInfo>,
    m: Option<(IRatio, ISeg)>,
) -> bool {
    match (res, m) {
        (None, None) => true,
        (Some(ci), Some((rat, edge))) => ci.movement_vector_ratio@ == rat
            && ci.movement_vector_ratio.wf() && ci.colliding_with@ == edge,
        _ => false,
    }
}

/// The model contents of a best-candidate holder of edges.
pub open spec fn best_model(b: BestMap<LineSegment>) -> Option<(IRatio, ISeg)> {
    match b.spec_entry() {
        None => None,
        Some((k, v)) => Some((k@, v@)),
    }
}

/// One step of the fold corresponds to taking one more candidate.
proof fn lemma_fold_take_step(init: Option<(IRatio, ISeg)>, s: Seq<(ISeg, ISeg)>, k: int)
    requires
        0 <= k < s.len(),
    ensures
        fold_candidates(init, s.take(k + 1)) == fold_candidate(
            fold_candidates(init, s.take(k)),
            s[k],
        ),
{
    assert(s.take(k + 1).drop_last() =~= s.take(k));
    assert(s.take(k + 1).last() == s[k]);
}

/// Folding a concatenation folds the parts in order.
proof fn lemma_fold_append(
    init: Option<(IRatio, ISeg)>,
    s1: Seq<(ISeg, ISeg)>,
    s2: Seq<(ISeg, ISeg)>,
)
    ensures
        fold_candidates(init, s1 + s2) == fold_candidates(fold_candidates(init, s1), s2),
    decreases s2.len(),
{
    if s2.len() == 0 {
        assert(s1 + s2 =~= s1);
    } else {
        lemma_fold_append(init, s1, s2.drop_last());
        assert((s1 + s2).drop_last() =~= s1 + s2.drop_last());
        assert((s1 + s2).last() == s2.last());
    }
}

/// The candidate at slot `i * |es| + j` is vertex `i` against edge `j`.
proof fn lemma_pair_index(
    vs: Seq<IVec>,
    pos: IVec,
    es: Seq<ISeg>,
    epos: IVec,
    m: IVec,
    i: int,
    j: int,
)
    requires
        0 <= i < vs.len(),
        0 <= j < es.len(),
    ensures
        0 <= i * (es.len() as int) + j < one_direction_pairs(vs, pos, es, epos, m).len(),
        one_direction_pairs(vs, pos, es, epos, m)[i * (es.len() as int) + j] == (
            probe_seg(vs[i].add(pos), m),
            es[j].add_vector(epos),
        ),
{
    let e = es.len() as int;
    let k = i * e + j;
    assert(0 <= k < vs.len() * es.len()) by (nonlinear_arith)
        requires
            0 <= i < vs.len(),
            0 <= j < es.len(),
            e == es.len(),
            k == i * e + j,
    ;
    assert(i * e == e * i) by (nonlinear_arith);
    vstd::arithmetic::div_mod::lemma_div_multiples_vanish_fancy(i, j, e);
    vstd::arithmetic::div_mod::lemma_mod_multiples_vanish(i, j, e);
    vstd::arithmetic::div_mod::lemma_small_mod(j as nat, e as nat);
    assert(k / e == i);
    assert(k % e == j);
}

/// Every leading vertex and facing edge stays within the shape's own
/// coordinate bound.
pub proof fn lemma_facing_bounded(sh: IShape, dir: IVec, b: int)
    requires
        sh.bounded(b),
    ensures
        forall|i: int|
            0 <= i < shape_vertices_facing(sh, dir).len() ==> (#[trigger] shape_vertices_facing(
                sh,
                dir,
            )[i]).in_range(b),
        forall|i: int|
            0 <= i < shape_edges_facing(sh, dir).len() ==> (#[trigger] shape_edges_facing(
                sh,
                dir,
            )[i]).in_range(b),
{
}

/// The candidate pair is a blocking crossing.
pub open spec fn is_crossing(pair: (ISeg, ISeg)) -> bool {
    seg_intersection(pair.0, pair.1) matches IOutcome::Crossing(_)
}

/// The exact ratio of a crossing candidate pair.
pub open spec fn crossing_ratio(pair: (ISeg, ISeg)) -> IRatio {
    seg_intersection(pair.0, pair.1)->Crossing_0
}

/// A crossing's ratio is a well-formed fraction in `[0, 1]`.
proof fn lemma_crossing_ratio_wf(a: ISeg, b: ISeg)
    ensures
        seg_intersection(a, b) matches IOutcome::Crossing(rat) ==> rat.wf(),
{
}

/// Rational `<=` is transitive for positive denominators.
pub proof fn lemma_ratio_le_trans(a: IRatio, b: IRatio, c: IRatio)
    requires
        a.den > 0,
        b.den > 0,
        c.den > 0,
        a.le(b),
        b.le(c),
    ensures
        a.le(c),
{
    assert((a.num * b.den) * c.den <= (b.num * a.den) * c.den) by (nonlinear_arith)
        requires
            a.num * b.den <= b.num * a.den,
            c.den > 0,
    ;
    assert((b.num * c.den) * a.den <= (c.num * b.den) * a.den) by (nonlinear_arith)
        requires
            b.num * c.den <= c.num * b.den,
            a.den > 0,
    ;
    assert((b.num * a.den) * c.den == (b.num * c.den) * a.den) by (nonlinear_arith);
    assert((a.num * b.den) * c.den == (a.num * c.den) * b.den) by (nonlinear_arith);
    assert((c.num * b.den) * a.den == (c.num * a.den) * b.den) by (nonlinear_arith);
    assert(a.num * c.den <= c.num * a.den) by (nonlinear_arith)
        requires
            (a.num * c.den) * b.den <= (c.num * a.den) * b.den,
            b.den > 0,
    ;
}

/// A crossing witness among all but the last candidate, or the initial
/// entry, remains a witness for the whole sequence.
proof fn lemma_carry_witness(
    s: Seq<(ISeg, ISeg)>,
    r0: IRatio,
    e0: ISeg,
    init: Option<(IRatio, ISeg)>,
)
    requires
        s.len() > 0,
        (exists|k: int|
            0 <= k < s.drop_last().len() && is_crossing(#[trigger] s.drop_last()[k])
                && crossing_ratio(s.drop_last()[k]) == r0 && s.drop_last()[k].1 == e0) || init
            == Some((r0, e0)),
    ensures
        (exists|k: int|
            0 <= k < s.len() && is_crossing(#[trigger] s[k]) && crossing_ratio(s[k]) == r0
                && s[k].1 == e0) || init == Some((r0, e0)),
{
    if exists|k: int|
        0 <= k < s.drop_last().len() && is_crossing(#[trigger] s.drop_last()[k]) && crossing_ratio(
            s.drop_last()[k],
        ) == r0 && s.drop_last()[k].1 == e0 {
        let k = choose|k: int|
            0 <= k < s.drop_last().len() && is_crossing(#[trigger] s.drop_last()[k])
                && crossing_ratio(s.drop_last()[k]) == r0 && s.drop_last()[k].1 == e0;
        assert(s.drop_last()[k] == s[k]);
        assert(0 <= k < s.len() && is_crossing(s[k]) && crossing_ratio(s[k]) == r0 && s[k].1
            == e0);
    }
}

/// What the candidate fold guarantees: a `None` outcome means no
/// candidate crosses; a `Some` outcome carries a crossing (or the
/// initial entry) whose ratio is minimal among all crossings.
proof fn lemma_fold_props(init: Option<(IRatio, ISeg)>, s: Seq<(ISeg, ISeg)>)
    requires
        match init {
            Some((r0, _)) => r0.wf(),
            None => true,
        },
    ensures
        match fold_candidates(init, s) {
            None => init == None::<(IRatio, ISeg)> && forall|k: int|
                0 <= k < s.len() ==> !is_crossing(#[trigger] s[k]),
            Some((rat, e)) => {
                &&& rat.wf()
                &&& ((exists|k: int|
                    0 <= k < s.len() && is_crossing(#[trigger] s[k]) && crossing_ratio(s[k]) == rat
                        && s[k].1 == e) || init == Some((rat, e)))
                &&& forall|k: int|
                    0 <= k < s.len() && is_crossing(#[trigger] s[k]) ==> rat.le(crossing_ratio(s[k]))
                &&& match init {
                    Some((r0, _)) => rat.le(r0),
                    None => true,
                }
            },
        },
    decreases s.len(),
{
    if s.len() == 0 {
    } else {
        lemma_fold_props(init, s.drop_last());
        let cur = fold_candidates(init, s.drop_last());
        let last = s.last();
        lemma_crossing_ratio_wf(last.0, last.1);
        let n = s.len() - 1;
        assert(s[n] == last);
        assert forall|k: int| 0 <= k < n implies #[trigger] s[k] == s.drop_last()[k] by {};
        if is_crossing(last) {
            let rat_l = crossing_ratio(last);
            assert(rat_l.wf());
            match cur {
                None => {
                    assert(0 <= n < s.len() && is_crossing(s[n]) && crossing_ratio(s[n]) == rat_l
                        && s[n].1 == last.1);
                },
                Some((r0, e0)) => {
                    if rat_l.le(r0) {
                        assert(0 <= n < s.len() && is_crossing(s[n]) && crossing_ratio(s[n])
                            == rat_l && s[n].1 == last.1);
                        assert forall|k: int|
                            0 <= k < s.len() && is_crossing(#[trigger] s[k]) implies rat_l.le(
                            crossing_ratio(s[k]),
                        ) by {
                            lemma_crossing_ratio_wf(s[k].0, s[k].1);
                            if k < n {
                                assert(s.drop_last()[k] == s[k]);
                                assert(r0.le(crossing_ratio(s[k])));
                                lemma_ratio_le_trans(rat_l, r0, crossing_ratio(s[k]));
                            }
                        };
                        match init {
                            Some((ri, _)) => {
                                lemma_ratio_le_trans(rat_l, r0, ri);
                            },
                            None => {},
                        }
                    } else {
                        assert(r0.le(rat_l));
                        lemma_carry_witness(s, r0, e0, init);
                    }
                },
            }
        } else {
            match cur {
                None => {},
                Some((r0, e0)) => {
                    lemma_carry_witness(s, r0, e0, init);
                },
            }
        }
    }
}

/// The contact a swept test reports is minimal: when it reports no
/// contact, no candidate pair crosses; when it reports one, that
/// contact is a real crossing among the candidates and its ratio is
/// less than or equal to the ratio of every crossing candidate.
pub proof fn lemma_sweep_outcome_minimal(
    mover: IShape,
    pos: IVec,
    stat: IShape,
    spos: IVec,
    m: IVec,
)
    ensures
        match sweep_outcome(mover, pos, stat, spos, m) {
            None => forall|k: int|
                0 <= k < sweep_pairs(mover, pos, stat, spos, m).len() ==> !is_crossing(
                    #[trigger] sweep_pairs(mover, pos, stat, spos, m)[k],
                ),
            Some((rat, e)) => {
                &&& rat.wf()
                &&& exists|k: int|
                    0 <= k < sweep_pairs(mover, pos, stat, spos, m).len() && is_crossing(
                        #[trigger] sweep_pairs(mover, pos, stat, spos, m)[k],
                    ) && crossing_ratio(sweep_pairs(mover, pos, stat, spos, m)[k]) == rat
                        && sweep_pairs(mover, pos, stat, spos, m)[k].1 == e
                &&& forall|k: int|
                    0 <= k < sweep_pairs(mover, pos, stat, spos, m).len() && is_crossing(
                        #[trigger] sweep_pairs(mover, pos, stat, spos, m)[k],
                    ) ==> rat.le(crossing_ratio(sweep_pairs(mover, pos, stat, spos, m)[k]))
            },
        },
{
    lemma_fold_props(None, sweep_pairs(mover, pos, stat, spos, m));
}

/// A swept test with exactly one crossing among its candidates reports
/// that crossing, and the reported fraction is exactly the analytic
/// one: `num/den == (pq x s)/(r x s)` for the crossing probe `r`,
/// edge vector `s`, and start-to-start vector `pq`.
pub proof fn lemma_single_contact_reported(
    mover: IShape,
    pos: IVec,
    stat: IShape,
    spos: IVec,
    m: IVec,
    k: int,
)
    requires
        0 <= k < sweep_pairs(mover, pos, stat, spos, m).len(),
        is_crossing(sweep_pairs(mover, pos, stat, spos, m)[k]),
        forall|j: int|
            0 <= j < sweep_pairs(mover, pos, stat, spos, m).len() && j != k ==> !is_crossing(
                #[trigger] sweep_pairs(mover, pos, stat, spos, m)[j],
            ),
    ensures
        sweep_outcome(mover, pos, stat, spos, m) == Some(
            (
                crossing_ratio(sweep_pairs(mover, pos, stat, spos, m)[k]),
                sweep_pairs(mover, pos, stat, spos, m)[k].1,
            ),
        ),
        ({
            let pair = sweep_pairs(mover, pos, stat, spos, m)[k];
            let rat = crossing_ratio(pair);
            &&& rat.wf()
            &&& rat.num * pair.0.vector().cross(pair.1.vector()) == pair.1.start.sub(
                pair.0.start,
            ).cross(pair.1.vector()) * rat.den
        }),
{
    let pairs = sweep_pairs(mover, pos, stat, spos, m);
    lemma_sweep_outcome_minimal(mover, pos, stat, spos, m);
    crate::line_segment::lemma_crossing_is_analytic(pairs[k].0, pairs[k].1);
    match sweep_outcome(mover, pos, stat, spos, m) {
        None => {
            assert(!is_crossing(pairs[k]));
        },
        Some((rat, e)) => {
            let j = choose|j: int|
                0 <= j < pairs.len() && is_crossing(#[trigger] pairs[j]) && crossing_ratio(
                    pairs[j],
                ) == rat && pairs[j].1 == e;
            assert(j == k);
        },
    }
}

/// Sweeps each probe (a world-space vertex swept by `movement`) against
/// each world-space edge, folding every crossing into `best` under the
/// later-wins-ties rule.
#[verifier::loop_isolation(false)]
fn for_each_single_direction_intersection(
    vertices: &Vec<Vec2>,
    position: Vec2,
    edges: &Vec<LineSegment>,
    edge_position: Vec2,
    movement: Vec2,
    best: &mut BestMap<LineSegment>,
)
    requires
        old(best).wf(),
        forall|k: int|
            0 <= k < vertices@.len() ==> {
                &&& (#[trigger] vertices@[k])@.add(position@).in_range(MAX_COORD as int)
                &&& vertices@[k]@.add(position@).add(movement@).in_range(MAX_COORD as int)
            },
        forall|k: int|
            0 <= k < edges@.len() ==> {
                &&& (#[trigger] edges@[k])@.in_range(2 * MAX_COORD as int)
                &&& edges@[k]@.add_vector(edge_position@).in_range(MAX_COORD as int)
            },
        edge_position@.in_range(2 * MAX_COORD as int),
    ensures
        final(best).wf(),
        best_model(*final(best)) == fold_candidates(
            best_model(*old(best)),
            one_direction_pairs(
                vertices@.map_values(|v: Vec2| v@),
                position@,
                edges@.map_values(|e: LineSegment| e@),
                edge_position@,
                movement@,
            ),
        ),
{
    let ghost vs_model = vertices@.map_values(|v: Vec2| v@);
    let ghost es_model = edges@.map_values(|e: LineSegment| e@);
    let ghost pairs = one_direction_pairs(vs_model, position@, es_model, edge_position@, movement@);
    let ghost e_len = es_model.len() as int;
    let ghost init = best_model(*best);
    proof {
        assert(pairs.take(0) =~= Seq::<(ISeg, ISeg)>::empty());
    }
    let mut i: usize = 0;
    while i < vertices.len()
        invariant
            0 <= i <= vertices.len(),
            best.wf(),
            best_model(*best) == fold_candidates(init, pairs.take(i as int * e_len)),
        decreases vertices.len() - i,
    {
        let vertex = vertices[i];
        let abs_vertex = vertex.add(position);
        let probe = LineSegment::new(abs_vertex, abs_vertex.add(movement));
        let mut j: usize = 0;
        while j < edges.len()
            invariant
                0 <= j <= edges.len(),
                i < vertices.len(),
                best.wf(),
                best_model(*best) == fold_candidates(init, pairs.take(i as int * e_len + j)),
                probe@ == probe_seg(vs_model[i as int].add(position@), movement@),
            decreases edges.len() - j,
        {
            let edge = edges[j].add_vector(edge_position);
            proof {
                lemma_pair_index(vs_model, position@, es_model, edge_position@, movement@, i as int, j as int);
                assert(pairs[i as int * e_len + j] == (probe@, edge@));
                lemma_fold_take_step(init, pairs, i as int * e_len + j);
            }
            let result = probe.intersection(&edge);
            match result {
                Ok(IntersectionOrSlide::IntersectionWithVectorMultiplier(multiplier)) => {
                    best.insert_le(multiplier, edge);
                },
                _ => {},
            }
            j += 1;
        }
        proof {
            assert(i as int * e_len + e_len == (i as int + 1) * e_len) by (nonlinear_arith);
        }
        i += 1;
    }
    proof {
        assert(pairs.take(vertices@.len() as int * e_len) =~= pairs);
    }
}

impl Shape {
    /// The earliest blocking contact of this shape, placed at
    /// `position` and swept by `movement_vector`, against a stationary
    /// shape placed at `stationary_position`; `None` when nothing
    /// blocks. Grazing contacts (colinear overlap or vertex touch)
    /// never block.
    pub fn movement_collision_test(
        &self,
        position: Vec2,
        stationary: &Shape,
        stationary_position: Vec2,
        movement_vector: Vec2,
    ) -> (res: Option<CollisionInfo>)
        requires
            self@.bounded(MAX_EXTENT as int),
            stationary@.bounded(MAX_EXTENT as int),
            position@.in_range(MAX_POSITION as int),
            stationary_position@.in_range(MAX_POSITION as int),
            movement_vector@.in_range(MAX_MOVEMENT as int),
        ensures
            collision_matches(
                res,
                sweep_outcome(self@, position@, stationary@, stationary_position@, movement_vector@),
            ),
    {
        let reverse_movement = movement_vector.neg();
        let mover_vertices = self.vertices_facing(movement_vector);
        let stationary_edges = stationary.edges_facing(reverse_movement);
        let stationary_vertices = stationary.vertices_facing(reverse_movement);
        let mover_edges = self.edges_facing(movement_vector);
        let mut best_collision: BestMap<LineSegment> = BestMap::new();
        proof {
            lemma_facing_bounded(self@, movement_vector@, MAX_EXTENT as int);
            lemma_facing_bounded(self@, movement_vector@.neg(), MAX_EXTENT as int);
            lemma_facing_bounded(stationary@, movement_vector@, MAX_EXTENT as int);
            lemma_facing_bounded(stationary@, movement_vector@.neg(), MAX_EXTENT as int);
            assert forall|k: int| 0 <= k < mover_vertices@.len() implies {
                &&& (#[trigger] mover_vertices@[k])@.add(position@).in_range(MAX_COORD as int)
                &&& mover_vertices@[k]@.add(position@).add(movement_vector@).in_range(
                    MAX_COORD as int,
                )
            } by {
                assert(mover_vertices@[k]@ == shape_vertices_facing(self@, movement_vector@)[k]);
            };
            assert forall|k: int| 0 <= k < stationary_edges@.len() implies {
                &&& (#[trigger] stationary_edges@[k])@.in_range(2 * MAX_COORD as int)
                &&& stationary_edges@[k]@.add_vector(stationary_position@).in_range(
                    MAX_COORD as int,
                )
            } by {
                assert(stationary_edges@[k]@ == shape_edges_facing(
                    stationary@,
                    movement_vector@.neg(),
                )[k]);
            };
            assert forall|k: int| 0 <= k < stationary_vertices@.len() implies {
                &&& (#[trigger] stationary_vertices@[k])@.add(stationary_position@).in_range(
                    MAX_COORD as int,
                )
                &&& stationary_vertices@[k]@.add(stationary_position@).add(
                    movement_vector@.neg(),
                ).in_range(MAX_COORD as int)
            } by {
                assert(stationary_vertices@[k]@ == shape_vertices_facing(
                    stationary@,
                    movement_vector@.neg(),
                )[k]);
            };
            assert forall|k: int| 0 <= k < mover_edges@.len() implies {
                &&& (#[trigger] mover_edges@[k])@.in_range(2 * MAX_COORD as int)
                &&& mover_edges@[k]@.add_vector(position@).in_range(MAX_COORD as int)
            } by {
                assert(mover_edges@[k]@ == shape_edges_facing(self@, movement_vector@)[k]);
            };
        }
        let ghost pairs_forward = one_direction_pairs(
            mover_vertices@.map_values(|v: Vec2| v@),
            position@,
            stationary_edges@.map_values(|e: LineSegment| e@),
            stationary_position@,
            movement_vector@,
        );
        let ghost pairs_reverse = one_direction_pairs(
            stationary_vertices@.map_values(|v: Vec2| v@),
            stationary_position@,
            mover_edges@.map_values(|e: LineSegment| e@),
            position@,
            reverse_movement@,
        );
        for_each_single_direction_intersection(
            &mover_vertices,
            position,
            &stationary_edges,
            stationary_position,
            movement_vector,
            &mut best_collision,
        );
        for_each_single_direction_intersection(
            &stationary_vertices,
            stationary_position,
            &mover_edges,
            position,
            reverse_movement,
            &mut best_collision,
        );
        proof {
            assert(mover_vertices@.map_values(|v: Vec2| v@) =~= shape_vertices_facing(
                self@,
                movement_vector@,
            ));
            assert(stationary_edges@.map_values(|e: LineSegment| e@) =~= shape_edges_facing(
                stationary@,
                movement_vector@.neg(),
            ));
            assert(stationary_vertices@.map_values(|v: Vec2| v@) =~= shape_vertices_facing(
                stationary@,
                movement_vector@.neg(),
            ));
            assert(mover_edges@.map_values(|e: LineSegment| e@) =~= shape_edges_facing(
                self@,
                movement_vector@,
            ));
            lemma_fold_append(None, pairs_forward, pairs_reverse);
            assert(sweep_pairs(
                self@,
                position@,
                stationary@,
                stationary_position@,
                movement_vector@,
            ) == pairs_forward + pairs_reverse);
        }
        match best_collision.into_key_and_value() {
            Some((movement_vector_ratio, colliding_with)) => Some(
                CollisionInfo { movement_vector_ratio, colliding_with },
            ),
            None => None,
        }
    }
}

} // verus!

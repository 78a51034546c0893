//! The movement-resolution loop.
//!
//! Policy: scale-and-slide. Each round sweeps the moving shape against
//! every broad-phase candidate, keeps the strictly earliest contact
//! (the first candidate wins exact ties), advances to the contact,
//! projects the remaining movement onto the colliding surface, and
//! repeats with the projected remainder, up to a fixed iteration
//! bound. Reaching the bound returns the position accumulated so far
//! as a best-effort approximation, never an error.

use vstd::prelude::*;

use crate::aabb::{union_iaabb, Aabb, IAabb};
use crate::best::BestMap;
use crate::line_segment::{ISeg, LineSegment};
use crate::ratio::{scale_ivec, IRatio};
use crate::shape::{
    best_model, crossing_ratio, is_crossing, lemma_facing_bounded, lemma_sweep_outcome_minimal,
    one_direction_pairs, shape_aabb, shape_edges_facing, shape_vertices_facing, sweep_outcome,
    sweep_pairs, CollisionInfo, IShape, Shape,
};
use crate::spatial::{IEntry, SpatialIndex};
use crate::vec2::{
    lemma_project_shrinks, lemma_sq_le, project_ivec, IVec, Vec2, MAX_COORD, MAX_EXTENT,
    MAX_MOVEMENT, MAX_POSITION, MAX_STEP,
};

verus! {

/// The bound on resolution rounds within one tick.
pub const MAX_ITERATIONS: usize = 16;

/// Outcome of one sweep of the scene.
pub enum EntityMovementStep {
    MoveWithoutCollision,
    MoveWithCollision(CollisionInfo),
}

/// The box swept by a placed shape over a movement: the union of the
/// shape's boxes at the start and at the end of the movement.
pub open spec fn movement_query_aabb(sh: IShape, pos: IVec, m: IVec) -> IAabb {
    union_iaabb(shape_aabb(sh, pos), shape_aabb(sh, pos.add(m)))
}

/// Folds the contact of one scene entry into the best contact so far.
/// An entry whose stored box does not strictly intersect the query box
/// is skipped: the broad-phase filter. A strictly earlier contact
/// replaces the current one, so the first candidate wins exact ties.
pub open spec fn step_one(
    prev: Option<(IRatio, ISeg)>,
    e: IEntry,
    query: IAabb,
    pos: IVec,
    sh: IShape,
    m: IVec,
) -> Option<(IRatio, ISeg)> {
    if e.aabb.intersects(query) {
        match sweep_outcome(sh, pos, e.info.shape, e.info.position, m) {
            Some((rat, edge)) => match prev {
                None => Some((rat, edge)),
                Some((k0, e0)) => if rat.lt(k0) {
                    Some((rat, edge))
                } else {
                    Some((k0, e0))
                },
            },
            None => prev,
        }
    } else {
        prev
    }
}

/// The earliest contact over the scene entries, in storage order.
pub open spec fn step_fold(
    entries: Seq<IEntry>,
    query: IAabb,
    pos: IVec,
    sh: IShape,
    m: IVec,
) -> Option<(IRatio, ISeg)>
    decreases entries.len(),
{
    if entries.len() == 0 {
        None
    } else {
        step_one(
            step_fold(entries.drop_last(), query, pos, sh, m),
            entries.last(),
            query,
            pos,
            sh,
            m,
        )
    }
}

/// The executable step outcome agrees with the model contact.
pub open spec fn step_matches(r: EntityMovementStep, m: Option<(IRatio, ISeg)>) -> bool {
    match (r, m) {
        (EntityMovementStep::MoveWithoutCollision, None) => true,
        (EntityMovementStep::MoveWithCollision(ci), Some((rat, edge))) => {
            &&& ci.movement_vector_ratio@ == rat
            &&& ci.movement_vector_ratio.wf()
            &&& ci.colliding_with@ == edge
        },
        _ => false,
    }
}

/// One step of the scene fold corresponds to taking one more entry.
proof fn lemma_step_fold_take(
    entries: Seq<IEntry>,
    query: IAabb,
    pos: IVec,
    sh: IShape,
    m: IVec,
    k: int,
)
    requires
        0 <= k < entries.len(),
    ensures
        step_fold(entries.take(k + 1), query, pos, sh, m) == step_one(
            step_fold(entries.take(k), query, pos, sh, m),
            entries[k],
            query,
            pos,
            sh,
            m,
        ),
{
    assert(entries.take(k + 1).drop_last() =~= entries.take(k));
    assert(entries.take(k + 1).last() == entries[k]);
}

/// A placed shape's box lies within the sum of its bounds.
proof fn lemma_shape_aabb_in_range(sh: IShape, pos: IVec, bs: int, bp: int)
    requires
        sh.bounded(bs),
        pos.in_range(bp),
        0 <= bs,
        0 <= bp,
    ensures
        shape_aabb(sh, pos).in_range(bs + bp),
        shape_aabb(sh, pos).wf(),
{
}

/// The edge of every candidate pair of a sweep between in-budget
/// shapes stays within the geometric range.
proof fn lemma_sweep_edge_bounded(mover: IShape, pos: IVec, stat: IShape, spos: IVec, m: IVec)
    requires
        mover.bounded(MAX_EXTENT as int),
        stat.bounded(MAX_EXTENT as int),
        pos.in_range(MAX_POSITION as int),
        spos.in_range(MAX_POSITION as int),
    ensures
        match sweep_outcome(mover, pos, stat, spos, m) {
            Some((rat, edge)) => edge.in_range(MAX_COORD as int),
            None => true,
        },
{
    lemma_facing_bounded(stat, m.neg(), MAX_EXTENT as int);
    lemma_facing_bounded(mover, m, MAX_EXTENT as int);
    let p1 = one_direction_pairs(
        shape_vertices_facing(mover, m),
        pos,
        shape_edges_facing(stat, m.neg()),
        spos,
        m,
    );
    let p2 = one_direction_pairs(
        shape_vertices_facing(stat, m.neg()),
        spos,
        shape_edges_facing(mover, m),
        pos,
        m.neg(),
    );
    lemma_one_dir_edge_bounded(
        shape_vertices_facing(mover, m),
        pos,
        shape_edges_facing(stat, m.neg()),
        spos,
        m,
    );
    lemma_one_dir_edge_bounded(
        shape_vertices_facing(stat, m.neg()),
        spos,
        shape_edges_facing(mover, m),
        pos,
        m.neg(),
    );
    lemma_sweep_outcome_minimal(mover, pos, stat, spos, m);
    match sweep_outcome(mover, pos, stat, spos, m) {
        Some((rat, edge)) => {
            let pairs = sweep_pairs(mover, pos, stat, spos, m);
            let k = choose|k: int|
                0 <= k < pairs.len() && is_crossing(#[trigger] pairs[k])
                    && crossing_ratio(pairs[k]) == rat && pairs[k].1 == edge;
            if k < p1.len() {
                assert(pairs[k] == p1[k]);
            } else {
                assert(pairs[k] == p2[k - p1.len()]);
            }
        },
        None => {},
    }
}

/// Each candidate edge of one sweep direction, placed in world space,
/// stays within the geometric range.
proof fn lemma_one_dir_edge_bounded(vs: Seq<IVec>, pos: IVec, es: Seq<ISeg>, epos: IVec, m: IVec)
    requires
        forall|j: int|
            0 <= j < es.len() ==> (#[trigger] es[j]).in_range(MAX_EXTENT as int),
        epos.in_range(MAX_POSITION as int),
    ensures
        forall|k: int|
            0 <= k < one_direction_pairs(vs, pos, es, epos, m).len() ==> (
            #[trigger] one_direction_pairs(vs, pos, es, epos, m)[k]).1.in_range(MAX_COORD as int),
{
    let pairs = one_direction_pairs(vs, pos, es, epos, m);
    assert forall|k: int| 0 <= k < pairs.len() implies (#[trigger] pairs[k]).1.in_range(
        MAX_COORD as int,
    ) by {
        let e = es.len() as int;
        assert(0 < e) by (nonlinear_arith)
            requires
                0 <= k < vs.len() * es.len(),
                e == es.len(),
        ;
        vstd::arithmetic::div_mod::lemma_mod_division_less_than_divisor(k, e);
        assert(pairs[k].1 == es[k % e].add_vector(epos));
    };
}

/// The colliding edge a scene fold reports stays within the geometric
/// range.
proof fn lemma_step_fold_edge_bounded(
    entries: Seq<IEntry>,
    query: IAabb,
    pos: IVec,
    sh: IShape,
    m: IVec,
)
    requires
        forall|i: int| 0 <= i < entries.len() ==> (#[trigger] entries[i]).wf(),
        sh.bounded(MAX_EXTENT as int),
        pos.in_range(MAX_POSITION as int),
    ensures
        match step_fold(entries, query, pos, sh, m) {
            Some((rat, edge)) => edge.in_range(MAX_COORD as int),
            None => true,
        },
    decreases entries.len(),
{
    if entries.len() > 0 {
        let n = entries.len() - 1;
        assert forall|k: int| 0 <= k < n implies #[trigger] entries[k]
            == entries.drop_last()[k] by {};
        lemma_step_fold_edge_bounded(entries.drop_last(), query, pos, sh, m);
        let e = entries.last();
        assert(entries[n] == e);
        assert(e.wf());
        lemma_sweep_edge_bounded(sh, pos, e.info.shape, e.info.position, m);
    }
}

/// A contact witness among all but the last entry remains a witness
/// for the whole scene.
proof fn lemma_carry_scene_witness(
    entries: Seq<IEntry>,
    query: IAabb,
    pos: IVec,
    sh: IShape,
    m: IVec,
    r0: IRatio,
    e0: ISeg,
)
    requires
        entries.len() > 0,
        exists|i: int|
            0 <= i < entries.drop_last().len() && (#[trigger] entries.drop_last()[i]).aabb.intersects(
                query,
            ) && sweep_outcome(
                sh,
                pos,
                entries.drop_last()[i].info.shape,
                entries.drop_last()[i].info.position,
                m,
            ) == Some((r0, e0)),
    ensures
        exists|i: int|
            0 <= i < entries.len() && (#[trigger] entries[i]).aabb.intersects(query)
                && sweep_outcome(sh, pos, entries[i].info.shape, entries[i].info.position, m)
                == Some((r0, e0)),
{
    let i = choose|i: int|
        0 <= i < entries.drop_last().len() && (#[trigger] entries.drop_last()[i]).aabb.intersects(
            query,
        ) && sweep_outcome(
            sh,
            pos,
            entries.drop_last()[i].info.shape,
            entries.drop_last()[i].info.position,
            m,
        ) == Some((r0, e0));
    assert(entries.drop_last()[i] == entries[i]);
    assert(0 <= i < entries.len() && entries[i].aabb.intersects(query) && sweep_outcome(
        sh,
        pos,
        entries[i].info.shape,
        entries[i].info.position,
        m,
    ) == Some((r0, e0)));
}

/// The contact the scene fold reports is the earliest among all
/// broad-phase candidates: when it reports none, no intersecting
/// entry's sweep finds a contact; when it reports one, some
/// intersecting entry's sweep found exactly that contact, and its
/// ratio is less than or equal to the contact ratio of every
/// intersecting entry.
pub proof fn lemma_step_fold_earliest(
    entries: Seq<IEntry>,
    query: IAabb,
    pos: IVec,
    sh: IShape,
    m: IVec,
)
    ensures
        match step_fold(entries, query, pos, sh, m) {
            None => forall|i: int|
                0 <= i < entries.len() && (#[trigger] entries[i]).aabb.intersects(query)
                    ==> sweep_outcome(sh, pos, entries[i].info.shape, entries[i].info.position, m)
                    == None::<(IRatio, ISeg)>,
            Some((rat, e)) => {
                &&& rat.wf()
                &&& exists|i: int|
                    0 <= i < entries.len() && (#[trigger] entries[i]).aabb.intersects(query)
                        && sweep_outcome(
                        sh,
                        pos,
                        entries[i].info.shape,
                        entries[i].info.position,
                        m,
                    ) == Some((rat, e))
                &&& forall|i: int|
                    0 <= i < entries.len() && (#[trigger] entries[i]).aabb.intersects(query)
                        ==> match sweep_outcome(
                        sh,
                        pos,
                        entries[i].info.shape,
                        entries[i].info.position,
                        m,
                    ) {
                        Some((r2, e2)) => rat.le(r2),
                        None => true,
                    }
            },
        },
    decreases entries.len(),
{
    if entries.len() > 0 {
        lemma_step_fold_earliest(entries.drop_last(), query, pos, sh, m);
        let n = entries.len() - 1;
        assert forall|k: int| 0 <= k < n implies #[trigger] entries[k]
            == entries.drop_last()[k] by {};
        let prev = step_fold(entries.drop_last(), query, pos, sh, m);
        let last = entries.last();
        assert(entries[n] == last);
        if last.aabb.intersects(query) {
            match sweep_outcome(sh, pos, last.info.shape, last.info.position, m) {
                Some((r2, e2)) => {
                    crate::shape::lemma_sweep_outcome_minimal(
                        sh,
                        pos,
                        last.info.shape,
                        last.info.position,
                        m,
                    );
                    match prev {
                        None => {},
                        Some((r0, e0)) => {
                            if r2.lt(r0) {
                                assert forall|i: int|
                                    0 <= i < entries.len() && (#[trigger] entries[i]).aabb.intersects(
                                        query,
                                    ) implies match sweep_outcome(
                                    sh,
                                    pos,
                                    entries[i].info.shape,
                                    entries[i].info.position,
                                    m,
                                ) {
                                    Some((r3, e3)) => r2.le(r3),
                                    None => true,
                                } by {
                                    if i < n {
                                        match sweep_outcome(
                                            sh,
                                            pos,
                                            entries[i].info.shape,
                                            entries[i].info.position,
                                            m,
                                        ) {
                                            Some((r3, e3)) => {
                                                crate::shape::lemma_sweep_outcome_minimal(
                                                    sh,
                                                    pos,
                                                    entries[i].info.shape,
                                                    entries[i].info.position,
                                                    m,
                                                );
                                                crate::shape::lemma_ratio_le_trans(r2, r0, r3);
                                            },
                                            None => {},
                                        }
                                    }
                                };
                            } else {
                                lemma_carry_scene_witness(entries, query, pos, sh, m, r0, e0);
                            }
                        },
                    }
                },
                None => {
                    match prev {
                        None => {},
                        Some((r0, e0)) => {
                            lemma_carry_scene_witness(entries, query, pos, sh, m, r0, e0);
                        },
                    }
                },
            }
        } else {
            match prev {
                None => {},
                Some((r0, e0)) => {
                    lemma_carry_scene_witness(entries, query, pos, sh, m, r0, e0);
                },
            }
        }
    }
}

/// Sweeps a placed shape over `movement` against the scene: queries
/// the broad phase with the swept box, runs the swept collision test
/// against each candidate, and keeps the strictly earliest contact.
#[verifier::loop_isolation(false)]
pub fn entity_movement_step(
    top_left: Vec2,
    shape: &Shape,
    movement: Vec2,
    scene: &SpatialIndex,
) -> (r: EntityMovementStep)
    requires
        scene.wf(),
        shape@.bounded(MAX_EXTENT as int),
        top_left@.in_range(MAX_POSITION as int),
        top_left@.add(movement@).in_range(MAX_POSITION as int),
        movement@.in_range(MAX_MOVEMENT as int),
    ensures
        step_matches(
            r,
            step_fold(
                scene@,
                movement_query_aabb(shape@, top_left@, movement@),
                top_left@,
                shape@,
                movement@,
            ),
        ),
{
    let new_top_left = top_left.add(movement);
    proof {
        lemma_shape_aabb_in_range(shape@, top_left@, MAX_EXTENT as int, MAX_POSITION as int);
        lemma_shape_aabb_in_range(shape@, new_top_left@, MAX_EXTENT as int, MAX_POSITION as int);
    }
    let movement_aabb = Aabb::union(&shape.aabb(top_left), &shape.aabb(new_top_left));
    let ghost query = movement_query_aabb(shape@, top_left@, movement@);
    proof {
        assert(movement_aabb@ == query);
        assert(movement_aabb@.in_range(MAX_COORD as int));
        assert(scene@.take(0) =~= Seq::<IEntry>::empty());
    }
    let mut collision: BestMap<LineSegment> = BestMap::new();
    let scene_len = scene.len();
    let mut i: usize = 0;
    while i < scene_len
        invariant
            0 <= i <= scene@.len(),
            collision.wf(),
            best_model(collision) == step_fold(scene@.take(i as int), query, top_left@, shape@, movement@),
        decreases scene@.len() - i,
    {
        let entry = *scene.entry(i);
        proof {
            assert(entry@ == scene@[i as int]);
            assert(scene@[i as int].wf());
            lemma_step_fold_take(scene@, query, top_left@, shape@, movement@, i as int);
        }
        if entry.aabb.is_intersecting(&movement_aabb) {
            let collision_result = shape.movement_collision_test(
                top_left,
                &entry.info.shape,
                entry.info.position,
                movement,
            );
            match collision_result {
                Some(ci) => {
                    collision.insert_lt(ci.movement_vector_ratio, ci.colliding_with);
                },
                None => {},
            }
        }
        i = i + 1;
    }
    proof {
        assert(scene@.take(scene@.len() as int) =~= scene@);
    }
    match collision.into_key_and_value() {
        None => EntityMovementStep::MoveWithoutCollision,
        Some((movement_vector_ratio, colliding_with)) => EntityMovementStep::MoveWithCollision(
            CollisionInfo { movement_vector_ratio, colliding_with },
        ),
    }
}

/// The position after up to `fuel` scale-and-slide rounds.
pub open spec fn resolve_rec(pos: IVec, sh: IShape, m: IVec, entries: Seq<IEntry>, fuel: nat) -> IVec
    decreases fuel,
{
    if fuel == 0 {
        pos
    } else {
        match step_fold(entries, movement_query_aabb(sh, pos, m), pos, sh, m) {
            None => pos.add(m),
            Some((rat, edge)) => {
                let moved = pos.add(scale_ivec(m, rat));
                if rat.complement().is_zero() {
                    moved
                } else {
                    let remaining = scale_ivec(m, rat.complement());
                    let slide = project_ivec(remaining, edge.vector());
                    if slide.is_zero() {
                        moved
                    } else {
                        resolve_rec(moved, sh, slide, entries, (fuel - 1) as nat)
                    }
                }
            },
        }
    }
}

/// The resolved position: the input position for a zero movement, and
/// otherwise the result of the bounded scale-and-slide rounds.
pub open spec fn resolve_spec(pos: IVec, sh: IShape, m: IVec, entries: Seq<IEntry>) -> IVec {
    if m.is_zero() {
        pos
    } else {
        resolve_rec(pos, sh, m, entries, MAX_ITERATIONS as nat)
    }
}

/// Whether `fuel` scale-and-slide rounds run out before reaching a
/// terminal state.
pub open spec fn exhausted_rec(
    pos: IVec,
    sh: IShape,
    m: IVec,
    entries: Seq<IEntry>,
    fuel: nat,
) -> bool
    decreases fuel,
{
    if fuel == 0 {
        true
    } else {
        match step_fold(entries, movement_query_aabb(sh, pos, m), pos, sh, m) {
            None => false,
            Some((rat, edge)) => {
                let moved = pos.add(scale_ivec(m, rat));
                if rat.complement().is_zero() {
                    false
                } else {
                    let remaining = scale_ivec(m, rat.complement());
                    let slide = project_ivec(remaining, edge.vector());
                    if slide.is_zero() {
                        false
                    } else {
                        exhausted_rec(moved, sh, slide, entries, (fuel - 1) as nat)
                    }
                }
            },
        }
    }
}

/// Whether resolution hits the iteration cap and returns its
/// best-effort position instead of a terminal one.
pub open spec fn resolve_exhausted(pos: IVec, sh: IShape, m: IVec, entries: Seq<IEntry>) -> bool {
    if m.is_zero() {
        false
    } else {
        exhausted_rec(pos, sh, m, entries, MAX_ITERATIONS as nat)
    }
}

/// Moves a placed shape through the scene, resolving swept collisions
/// by scale-and-slide. Returns the final top-left position together
/// with the diagnostic flag: whether the iteration cap was exhausted,
/// in which case the position is the best-effort one accumulated so
/// far. A zero movement returns the position unchanged.
#[verifier::loop_isolation(false)]
pub fn resolve_movement(
    top_left: Vec2,
    shape: &Shape,
    movement: Vec2,
    scene: &SpatialIndex,
) -> (r: (Vec2, bool))
    requires
        scene.wf(),
        shape@.bounded(MAX_EXTENT as int),
        top_left@.in_range(MAX_EXTENT as int),
        movement@.in_range(MAX_STEP as int),
    ensures
        r.0@ == resolve_spec(top_left@, shape@, movement@, scene@),
        r.1 == resolve_exhausted(top_left@, shape@, movement@, scene@),
        movement@.is_zero() ==> r.0@ == top_left@,
{
    if movement.x == 0 && movement.y == 0 {
        return (top_left, false);
    }
    let ghost orig_pos = top_left@;
    let ghost orig_mov = movement@;
    let mut top_left = top_left;
    let mut movement = movement;
    proof {
        lemma_sq_le(movement@.x, MAX_STEP as int);
        lemma_sq_le(movement@.y, MAX_STEP as int);
        assert(0x40_0000int * 0x40_0000int == 0x1000_0000_0000int);
    }
    let mut iteration: usize = 0;
    while iteration < MAX_ITERATIONS
        invariant
            0 <= iteration <= MAX_ITERATIONS,
            movement@.dot(movement@) <= 0x2000_0000_0000,
            movement@.in_range(MAX_MOVEMENT as int),
            !movement@.is_zero(),
            top_left@.in_range(MAX_EXTENT as int + iteration * (MAX_MOVEMENT as int)),
            resolve_rec(orig_pos, shape@, orig_mov, scene@, MAX_ITERATIONS as nat) == resolve_rec(
                top_left@,
                shape@,
                movement@,
                scene@,
                (MAX_ITERATIONS - iteration) as nat,
            ),
            exhausted_rec(orig_pos, shape@, orig_mov, scene@, MAX_ITERATIONS as nat)
                == exhausted_rec(
                top_left@,
                shape@,
                movement@,
                scene@,
                (MAX_ITERATIONS - iteration) as nat,
            ),
        decreases MAX_ITERATIONS - iteration,
    {
        let ghost pos_in = top_left@;
        let ghost mov_in = movement@;
        let ghost fuel = (MAX_ITERATIONS - iteration) as nat;
        let step = entity_movement_step(top_left, shape, movement, scene);
        match step {
            EntityMovementStep::MoveWithoutCollision => {
                return (top_left.add(movement), false);
            },
            EntityMovementStep::MoveWithCollision(ci) => {
                let movement_vector_ratio = ci.movement_vector_ratio;
                proof {
                    lemma_step_fold_edge_bounded(
                        scene@,
                        movement_query_aabb(shape@, pos_in, mov_in),
                        pos_in,
                        shape@,
                        mov_in,
                    );
                }
                let delta = movement.scale(movement_vector_ratio);
                top_left = top_left.add(delta);
                let remaining_ratio = movement_vector_ratio.complement();
                if remaining_ratio.is_zero() {
                    return (top_left, false);
                }
                let remaining_vector = movement.scale(remaining_ratio);
                let edge_vector = ci.colliding_with.vector();
                let slide = remaining_vector.project_onto(edge_vector);
                if slide.x == 0 && slide.y == 0 {
                    return (top_left, false);
                }
                proof {
                    lemma_project_shrinks(remaining_vector@, edge_vector@);
                    lemma_sq_le(remaining_vector@.x, mov_in.x);
                    lemma_sq_le(remaining_vector@.y, mov_in.y);
                    assert(slide@.dot(slide@) <= movement@.dot(movement@));
                    assert(slide@.x * slide@.x <= 0x2000_0000_0000int);
                    assert(slide@.y * slide@.y <= 0x2000_0000_0000int);
                    assert(-0x80_0000 <= slide@.x <= 0x80_0000) by (nonlinear_arith)
                        requires
                            slide@.x * slide@.x <= 0x2000_0000_0000int,
                    ;
                    assert(-0x80_0000 <= slide@.y <= 0x80_0000) by (nonlinear_arith)
                        requires
                            slide@.y * slide@.y <= 0x2000_0000_0000int,
                    ;
                    assert(resolve_rec(pos_in, shape@, mov_in, scene@, fuel) == resolve_rec(
                        top_left@,
                        shape@,
                        slide@,
                        scene@,
                        (fuel - 1) as nat,
                    ));
                    assert(exhausted_rec(pos_in, shape@, mov_in, scene@, fuel) == exhausted_rec(
                        top_left@,
                        shape@,
                        slide@,
                        scene@,
                        (fuel - 1) as nat,
                    ));
                }
                movement = slide;
                iteration = iteration + 1;
            },
        }
    }
    (top_left, true)
}

/// Moves a placed shape through the scene, resolving swept collisions
/// by scale-and-slide, and returns the final top-left position. A zero
/// movement returns the position unchanged.
pub fn top_left_after_movement(
    top_left: Vec2,
    shape: &Shape,
    movement: Vec2,
    scene: &SpatialIndex,
) -> (r: Vec2)
    requires
        scene.wf(),
        shape@.bounded(MAX_EXTENT as int),
        top_left@.in_range(MAX_EXTENT as int),
        movement@.in_range(MAX_STEP as int),
    ensures
        r@ == resolve_spec(top_left@, shape@, movement@, scene@),
        movement@.is_zero() ==> r@ == top_left@,
{
    let (new_top_left, _exhausted) = resolve_movement(top_left, shape, movement, scene);
    new_top_left
}

/// In an empty scene a movement is applied in full: the resolution is
/// free of contacts and never exhausts its iteration cap.
pub proof fn lemma_resolve_free_space(pos: IVec, sh: IShape, m: IVec)
    ensures
        m.is_zero() ==> resolve_spec(pos, sh, m, Seq::<IEntry>::empty()) == pos,
        !m.is_zero() ==> resolve_spec(pos, sh, m, Seq::<IEntry>::empty()) == pos.add(m),
        !resolve_exhausted(pos, sh, m, Seq::<IEntry>::empty()),
{
}

/// Resolving a movement and then resolving again with a zero movement
/// leaves the resolved position unchanged.
pub proof fn lemma_resolve_then_zero(pos: IVec, sh: IShape, m: IVec, entries: Seq<IEntry>)
    ensures
        resolve_spec(resolve_spec(pos, sh, m, entries), sh, IVec { x: 0, y: 0 }, entries)
            == resolve_spec(pos, sh, m, entries),
{
}

} // verus!

//! Conservative vertex-vs-edge clipping over pure integer arithmetic.
//!
//! Given a vertex swept along a movement vector against a directed
//! edge, this routine either rules the crossing out or returns the
//! movement the vertex may take: the exact clipped movement shrunk by
//! one denominator-unit and truncated, so the result never reaches the
//! edge itself. Movement exactly parallel to the edge (a zero cross
//! product) is ruled no intersection here.

use vstd::prelude::*;

use crate::line_segment::{ISeg, LineSegment};
use crate::vec2::{
    div_trunc, iabs, lemma_mul_bound, trunc_div, IVec, Vec2, MAX_COORD,
};

verus! {

/// The clipped movement of `vertex` swept by `m` against `edge`, over
/// the model: writing `c` for `m x edge_vector`, `s` for its sign and
/// `ca` for its magnitude, the sweep crosses the edge's line at the
/// fraction `(v2es x edge_vector) / c` of the movement, and the edge at
/// the fraction `(v2es x m) / c` of itself; either fraction outside
/// `[0, 1]` rules the crossing out, and otherwise each coordinate of
/// the allowed movement is `(m.c * (v2es x edge_vector) * s - 1) / ca`,
/// truncated toward zero.
pub open spec fn vertex_edge_spec(vertex: IVec, m: IVec, edge: ISeg) -> Option<IVec> {
    let edge_vector = edge.vector();
    let cross = m.cross(edge_vector);
    if cross == 0 {
        None
    } else {
        let s = if cross > 0 {
            1int
        } else {
            -1int
        };
        let cross_abs = s * cross;
        let v2es = edge.start.sub(vertex);
        let vertex_multiplier_x_cross = v2es.cross(edge_vector);
        let vertex_abs = s * vertex_multiplier_x_cross;
        if vertex_abs < 0 || vertex_abs > cross_abs {
            None
        } else {
            let edge_multiplier_x_cross = v2es.cross(m);
            let edge_abs = s * edge_multiplier_x_cross;
            if edge_abs < 0 || edge_abs > cross_abs {
                None
            } else {
                Some(
                    IVec {
                        x: trunc_div(s * (m.x * vertex_multiplier_x_cross) - 1, cross_abs),
                        y: trunc_div(s * (m.y * vertex_multiplier_x_cross) - 1, cross_abs),
                    },
                )
            }
        }
    }
}

/// `|num| <= k*d` bounds the truncated quotient: `|num / d| <= k`.
proof fn lemma_trunc_div_le(num: int, d: int, k: int)
    requires
        d > 0,
        0 <= k,
        iabs(num) <= k * d,
    ensures
        iabs(trunc_div(num, d)) <= k,
{
    if num >= 0 {
        vstd::arithmetic::div_mod::lemma_div_pos_is_pos(num, d);
    } else {
        vstd::arithmetic::div_mod::lemma_div_pos_is_pos(-num, d);
    }
    assert(iabs(trunc_div(num, d)) == iabs(num) / d);
    vstd::arithmetic::div_mod::lemma_div_is_ordered(iabs(num), k * d, d);
    vstd::arithmetic::div_mod::lemma_div_by_multiple(k, d);
}

/// Clips the movement of a swept vertex against a directed edge,
/// exactly; returns `None` when the sweep cannot cross the edge, and
/// the parallel (zero cross product) case is ruled no intersection.
pub fn vertex_edge(vertex: Vec2, vertex_movement: Vec2, edge: LineSegment) -> (r: Option<Vec2>)
    requires
        vertex@.in_range(MAX_COORD as int),
        vertex_movement@.in_range(MAX_COORD as int),
        edge@.in_range(MAX_COORD as int),
    ensures
        match vertex_edge_spec(vertex@, vertex_movement@, edge@) {
            None => r == None::<Vec2>,
            Some(allowed) => match r {
                Some(v) => v@ == allowed,
                None => false,
            },
        },
{
    let edge_vector = edge.vector();
    let cross: i64 = vertex_movement.cross(edge_vector);
    proof {
        lemma_mul_bound(vertex_movement@.x, edge_vector@.y, 0x2000_0000, 0x4000_0000);
        lemma_mul_bound(vertex_movement@.y, edge_vector@.x, 0x2000_0000, 0x4000_0000);
        assert(0x2000_0000int * 0x4000_0000int == 0x0800_0000_0000_0000int);
    }
    if cross == 0 {
        return None;
    }
    let cross_sign: i64 = if cross > 0 {
        1
    } else {
        -1
    };
    let cross_abs: i64 = if cross > 0 {
        cross
    } else {
        -cross
    };
    let vertex_to_edge_start = edge.start.sub(vertex);
    let vertex_multiplier_x_cross: i64 = vertex_to_edge_start.cross(edge_vector);
    proof {
        lemma_mul_bound(vertex_to_edge_start@.x, edge_vector@.y, 0x4000_0000, 0x4000_0000);
        lemma_mul_bound(vertex_to_edge_start@.y, edge_vector@.x, 0x4000_0000, 0x4000_0000);
        lemma_mul_bound(vertex_to_edge_start@.x, vertex_movement@.y, 0x4000_0000, 0x2000_0000);
        lemma_mul_bound(vertex_to_edge_start@.y, vertex_movement@.x, 0x4000_0000, 0x2000_0000);
        assert(0x4000_0000int * 0x4000_0000int == 0x1000_0000_0000_0000int);
        assert(0x4000_0000int * 0x2000_0000int == 0x0800_0000_0000_0000int);
    }
    proof {
        lemma_mul_bound(
            vertex_multiplier_x_cross as int,
            cross_sign as int,
            0x2000_0000_0000_0000,
            1,
        );
    }
    let vertex_abs: i64 = vertex_multiplier_x_cross * cross_sign;
    if vertex_abs < 0 {
        return None;
    }
    if vertex_abs > cross_abs {
        return None;
    }
    let edge_multiplier_x_cross: i64 = vertex_to_edge_start.cross(vertex_movement);
    proof {
        lemma_mul_bound(edge_multiplier_x_cross as int, cross_sign as int, 0x2000_0000_0000_0000, 1);
    }
    let edge_abs: i64 = edge_multiplier_x_cross * cross_sign;
    if edge_abs < 0 {
        return None;
    }
    if edge_abs > cross_abs {
        return None;
    }
    proof {
        let mx = vertex_movement@.x;
        let my = vertex_movement@.y;
        let vm = vertex_multiplier_x_cross as int;
        let s = cross_sign as int;
        let ca = cross_abs as int;
        let va = vertex_abs as int;
        lemma_mul_bound(mx, vm, 0x2000_0000, 0x2000_0000_0000_0000);
        lemma_mul_bound(my, vm, 0x2000_0000, 0x2000_0000_0000_0000);
        assert(0x2000_0000int * 0x2000_0000_0000_0000int == 0x0400_0000_0000_0000_0000_0000int);
        lemma_mul_bound(mx * vm, s, 0x0400_0000_0000_0000_0000_0000, 1);
        lemma_mul_bound(my * vm, s, 0x0400_0000_0000_0000_0000_0000, 1);
        assert(mx * vm * s == mx * va && my * vm * s == my * va) by (nonlinear_arith)
            requires
                va == vm * s,
        ;
        assert(mx * vm * s == s * (mx * vm) && my * vm * s == s * (my * vm))
            by (nonlinear_arith);
        assert(iabs(mx * va - 1) <= (iabs(mx) + 1) * ca) by (nonlinear_arith)
            requires
                0 <= va <= ca,
                0 < ca,
                iabs(mx) == (if mx >= 0 { mx } else { -mx }),
                iabs(mx * va - 1) == (if mx * va - 1 >= 0 { mx * va - 1 } else { -(mx * va - 1) }),
        ;
        assert(iabs(my * va - 1) <= (iabs(my) + 1) * ca) by (nonlinear_arith)
            requires
                0 <= va <= ca,
                0 < ca,
                iabs(my) == (if my >= 0 { my } else { -my }),
                iabs(my * va - 1) == (if my * va - 1 >= 0 { my * va - 1 } else { -(my * va - 1) }),
        ;
        lemma_trunc_div_le(mx * vm * s - 1, ca, iabs(mx) + 1);
        lemma_trunc_div_le(my * vm * s - 1, ca, iabs(my) + 1);
    }
    let num_x: i128 = (vertex_movement.x as i128) * (vertex_multiplier_x_cross as i128) * (
    cross_sign as i128) - 1;
    let num_y: i128 = (vertex_movement.y as i128) * (vertex_multiplier_x_cross as i128) * (
    cross_sign as i128) - 1;
    let ax: i128 = div_trunc(num_x, cross_abs as i128);
    let ay: i128 = div_trunc(num_y, cross_abs as i128);
    Some(Vec2 { x: ax as i64, y: ay as i64 })
}

} // verus!

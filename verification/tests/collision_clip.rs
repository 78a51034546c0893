//! The integer vertex-vs-edge clipping routine.

use swept_collision::collision::vertex_edge;
use swept_collision::line_segment::LineSegment;
use swept_collision::vec2::{vec2, Vec2};

fn v(x: i64, y: i64) -> Vec2 {
    vec2(x, y)
}

fn ls(start: Vec2, end: Vec2) -> LineSegment {
    LineSegment::new(start, end)
}

#[test]
fn basic() {
    assert_eq!(vertex_edge(v(0, 0), v(3, 3), ls(v(0, 4), v(4, 0))), Some(v(1, 1)));
    assert_eq!(vertex_edge(v(0, 0), v(3, 3), ls(v(0, 5), v(5, 0))), Some(v(2, 2)));
}

#[test]
fn movement_away_from_edge_misses() {
    assert_eq!(vertex_edge(v(0, 0), v(-3, -3), ls(v(0, 4), v(4, 0))), None);
}

#[test]
fn movement_parallel_to_edge_is_ruled_out() {
    // Zero cross product: ruled no intersection by definition.
    assert_eq!(vertex_edge(v(0, 0), v(2, -2), ls(v(0, 4), v(4, 0))), None);
}

#[test]
fn sweep_beside_edge_misses() {
    // The sweep crosses the edge's line beyond the edge's own extent.
    assert_eq!(vertex_edge(v(10, 0), v(0, 10), ls(v(0, 4), v(4, 0))), None);
}

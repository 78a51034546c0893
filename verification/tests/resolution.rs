//! The swept collision test and the movement-resolution loop.

use swept_collision::entity::EntityIdAllocator;
use swept_collision::line_segment::LineSegment;
use swept_collision::movement::{
    entity_movement_step, resolve_movement, top_left_after_movement, EntityMovementStep,
};
use swept_collision::shape::{AxisAlignedRect, Shape};
use swept_collision::spatial::{SpatialIndex, SpatialInfo};
use swept_collision::vec2::{vec2, Vec2};

fn rect(w: i64, h: i64) -> Shape {
    Shape::AxisAlignedRect(AxisAlignedRect::new(vec2(w, h)))
}

fn segment(start: Vec2, end: Vec2) -> Shape {
    Shape::LineSegment(LineSegment::new(start, end))
}

/// A scene with one horizontal platform: position (50, 200), size
/// (400, 20), so its top edge lies at y = 200.
fn platform_scene() -> SpatialIndex {
    let mut scene = SpatialIndex::new();
    let shape = rect(400, 20);
    let position = vec2(50, 200);
    scene.insert(shape.aabb(position), SpatialInfo::new(0, position, shape));
    scene
}

#[test]
fn falling_rect_stops_exactly_on_platform() {
    // A 32 x 64 rectangle falling straight down stops with its bottom
    // edge exactly on the platform top: position.y = 200 - 64 = 136,
    // with no residual motion of any kind.
    let scene = platform_scene();
    let mover = rect(32, 64);
    let result = top_left_after_movement(vec2(200, 50), &mover, vec2(0, 100), &scene);
    assert_eq!(result, vec2(200, 136));
}

#[test]
fn falling_rect_slides_horizontally_on_platform() {
    // Falling diagonally, the rectangle stops at the platform top and
    // the remaining movement slides horizontally in the same tick.
    let scene = platform_scene();
    let mover = rect(32, 64);
    let result = top_left_after_movement(vec2(200, 50), &mover, vec2(10, 100), &scene);
    // Clipped at ratio 34400/40000: advance (8, 86), slide (1, 0).
    assert_eq!(result, vec2(209, 136));
}

#[test]
fn unobstructed_movement_is_applied_fully() {
    let scene = platform_scene();
    let mover = rect(32, 64);
    let result = top_left_after_movement(vec2(200, 50), &mover, vec2(5, 5), &scene);
    assert_eq!(result, vec2(205, 55));
}

#[test]
fn zero_movement_returns_position_unchanged() {
    let scene = platform_scene();
    let mover = rect(32, 64);
    let result = top_left_after_movement(vec2(200, 50), &mover, vec2(0, 0), &scene);
    assert_eq!(result, vec2(200, 50));
}

#[test]
fn resolve_then_zero_movement_is_stable() {
    // Resolving once and then resolving the result with a zero
    // movement returns the resolved position unchanged.
    let scene = platform_scene();
    let mover = rect(32, 64);
    let resolved = top_left_after_movement(vec2(200, 50), &mover, vec2(10, 100), &scene);
    let again = top_left_after_movement(resolved, &mover, vec2(0, 0), &scene);
    assert_eq!(again, resolved);
}

#[test]
fn step_reports_earliest_contact() {
    // Two stacked platforms: the sweep must stop at the higher one.
    let mut scene = SpatialIndex::new();
    let low = rect(400, 20);
    let low_pos = vec2(50, 300);
    scene.insert(low.aabb(low_pos), SpatialInfo::new(0, low_pos, low));
    let high = rect(400, 20);
    let high_pos = vec2(50, 200);
    scene.insert(high.aabb(high_pos), SpatialInfo::new(1, high_pos, high));
    let mover = rect(32, 64);
    match entity_movement_step(vec2(200, 50), &mover, vec2(0, 500), &scene) {
        EntityMovementStep::MoveWithCollision(ci) => {
            // Contact after 86 of 500 units of fall.
            let m = ci.movement_vector_ratio;
            assert_eq!((m.num as i128) * 500, 86 * (m.den as i128));
            // The colliding surface is the higher platform's top edge.
            assert_eq!(ci.colliding_with, LineSegment::new(vec2(50, 200), vec2(450, 200)));
        }
        EntityMovementStep::MoveWithoutCollision => panic!("expected a collision"),
    }
}

#[test]
fn swept_test_reports_exact_analytic_ratio() {
    // A 2 x 2 rectangle at the origin swept by (0, 4) against a
    // horizontal segment with its line at y = 5: the single geometric
    // contact is at the analytic fraction (5 - 2) / 4 = 3/4.
    let mover = rect(2, 2);
    let stationary = segment(vec2(0, 0), vec2(4, 0));
    let result = mover
        .movement_collision_test(vec2(0, 0), &stationary, vec2(-1, 5), vec2(0, 4))
        .unwrap();
    let m = result.movement_vector_ratio;
    assert_eq!((m.num as i128) * 4, 3 * (m.den as i128));
    assert_eq!(result.colliding_with, LineSegment::new(vec2(-1, 5), vec2(3, 5)));
}

#[test]
fn grazing_vertex_does_not_block() {
    // The mover passes exactly beside the segment, touching it only at
    // an endpoint of the crossed edge: a slide, never a blocking hit.
    let mover = rect(2, 2);
    let stationary = segment(vec2(0, 0), vec2(0, 4));
    let result = mover.movement_collision_test(vec2(0, 0), &stationary, vec2(2, 0), vec2(0, 4));
    assert!(result.is_none());
}

#[test]
fn zero_movement_vector_finds_no_collision() {
    let mover = rect(2, 2);
    let stationary = rect(10, 10);
    let result = mover.movement_collision_test(vec2(0, 0), &stationary, vec2(0, 1), vec2(0, 0));
    assert!(result.is_none());
}

#[test]
fn wedged_into_corner_stops() {
    // Moving diagonally into a wall whose surface is perpendicular to
    // the remaining movement: the slide projection is zero, so the
    // entity stops at the contact.
    let mut scene = SpatialIndex::new();
    let wall = rect(20, 200);
    let wall_pos = vec2(100, 0);
    scene.insert(wall.aabb(wall_pos), SpatialInfo::new(0, wall_pos, wall));
    let mover = rect(10, 10);
    // Straight right into the wall's left edge at x = 100.
    let result = top_left_after_movement(vec2(50, 20), &mover, vec2(80, 0), &scene);
    assert_eq!(result, vec2(90, 20));
}

#[test]
fn broad_phase_returns_only_overlapping_candidates() {
    let mut scene = SpatialIndex::new();
    let near = rect(10, 10);
    let near_pos = vec2(0, 0);
    scene.insert(near.aabb(near_pos), SpatialInfo::new(7, near_pos, near));
    let far = rect(10, 10);
    let far_pos = vec2(500, 500);
    scene.insert(far.aabb(far_pos), SpatialInfo::new(8, far_pos, far));
    let query = swept_collision::aabb::Aabb::new(vec2(5, 5), vec2(10, 10));
    let found = scene.intersection_candidates(&query);
    assert_eq!(found.len(), 1);
    assert_eq!(found[0].info.entity_id, 7);
    assert_eq!(scene.len(), 2);
}

#[test]
fn resolution_diagnostic_reports_termination() {
    // The platform scene terminates well inside the iteration cap, so
    // the exhaustion diagnostic stays clear and the position agrees
    // with the plain resolution entry point.
    let scene = platform_scene();
    let mover = rect(32, 64);
    let (position, exhausted) = resolve_movement(vec2(200, 50), &mover, vec2(10, 100), &scene);
    assert_eq!(position, vec2(209, 136));
    assert!(!exhausted);
    assert_eq!(
        position,
        top_left_after_movement(vec2(200, 50), &mover, vec2(10, 100), &scene)
    );
}

#[test]
fn count_intersections_matches_candidates() {
    let mut scene = SpatialIndex::new();
    let near = rect(10, 10);
    let near_pos = vec2(0, 0);
    scene.insert(near.aabb(near_pos), SpatialInfo::new(0, near_pos, near));
    let far = rect(10, 10);
    let far_pos = vec2(500, 500);
    scene.insert(far.aabb(far_pos), SpatialInfo::new(1, far_pos, far));
    let query = swept_collision::aabb::Aabb::new(vec2(5, 5), vec2(10, 10));
    assert_eq!(scene.count_intersections(&query), 1);
    let everywhere = swept_collision::aabb::Aabb::new(vec2(-100, -100), vec2(1000, 1000));
    assert_eq!(scene.count_intersections(&everywhere), 2);
}

#[test]
fn scene_clear_empties_the_index() {
    let mut scene = platform_scene();
    assert_eq!(scene.len(), 1);
    scene.clear();
    assert_eq!(scene.len(), 0);
}

#[test]
fn entity_id_allocation_counts_up_and_resets() {
    let mut allocator = EntityIdAllocator::default();
    assert_eq!(allocator.allocate(), 0);
    assert_eq!(allocator.allocate(), 1);
    assert_eq!(allocator.allocate(), 2);
    allocator.reset();
    assert_eq!(allocator.allocate(), 0);
}

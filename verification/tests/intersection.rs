//! Segment-vs-segment intersection classification.

use swept_collision::line_segment::{
    IntersectionNone, IntersectionOrSlide, IntersectionResult, IntersectionSlide, LineSegment,
};
use swept_collision::ratio::Ratio;
use swept_collision::vec2::vec2;

/// Asserts that the outcome is a crossing whose multiplier equals
/// `num/den` as a rational number.
fn expect_multiplier(intersection: IntersectionResult, num: i64, den: i64) {
    match intersection.unwrap().intersection_vector_multiplier() {
        None => panic!("expected a crossing"),
        Some(m) => {
            assert_eq!(
                (m.num as i128) * (den as i128),
                (num as i128) * (m.den as i128),
                "expected multiplier {}/{}, got {}/{}",
                num,
                den,
                m.num,
                m.den
            );
        }
    }
}

fn multiplier(intersection: IntersectionResult) -> Option<Ratio> {
    intersection.unwrap().intersection_vector_multiplier()
}

#[test]
fn basic_intersection() {
    let a = LineSegment::new(vec2(0, 0), vec2(1, 1));
    let b = LineSegment::new(vec2(1, 0), vec2(0, 1));
    expect_multiplier(a.intersection(&b), 1, 2);
}

#[test]
fn parallel_non_intersecting() {
    let a = LineSegment::new(vec2(0, 0), vec2(1, 1));
    let b = LineSegment::new(vec2(1, 0), vec2(2, 1));
    match a.intersection(&b).unwrap_err() {
        IntersectionNone::ParallelNonColinear => (),
        other => panic!("{:?}", other),
    }
}

#[test]
fn non_parallel_non_intersecting() {
    let a = LineSegment::new(vec2(0, 0), vec2(1, 1));
    let b = LineSegment::new(vec2(2, 0), vec2(2, 1));
    match a.intersection(&b).unwrap_err() {
        IntersectionNone::NonParallelNonIntersecting => (),
        other => panic!("{:?}", other),
    }
}

#[test]
fn colinear_non_overlapping() {
    // The second segment starts one sub-pixel unit past the first
    // segment's end, so the colinear ranges do not overlap.
    let a = LineSegment::new(vec2(0, 0), vec2(10, 10));
    let b = LineSegment::new(vec2(11, 11), vec2(20, 20));
    match a.intersection(&b).unwrap_err() {
        IntersectionNone::ColinearNonOverlapping => (),
        other => panic!("{:?}", other),
    }
}

#[test]
fn end_colinear_overlapping() {
    let a = LineSegment::new(vec2(0, 0), vec2(1, 1));
    let b = LineSegment::new(vec2(1, 1), vec2(2, 2));
    match a.intersection(&b).unwrap() {
        IntersectionOrSlide::Slide(IntersectionSlide::Colinear) => (),
        other => panic!("{:?}", other),
    }
}

#[test]
fn start_colinear_overlapping() {
    let a = LineSegment::new(vec2(1, 1), vec2(2, 2));
    let b = LineSegment::new(vec2(0, 0), vec2(1, 1));
    match a.intersection(&b).unwrap() {
        IntersectionOrSlide::Slide(IntersectionSlide::Colinear) => (),
        other => panic!("{:?}", other),
    }
}

#[test]
fn mid_colinear_overlapping() {
    let a = LineSegment::new(vec2(0, 0), vec2(4, 4));
    let b = LineSegment::new(vec2(1, 1), vec2(3, 3));
    match a.intersection(&b).unwrap() {
        IntersectionOrSlide::Slide(IntersectionSlide::Colinear) => (),
        other => panic!("{:?}", other),
    }
}

#[test]
fn asymetric_start_vertex_overlapping() {
    let a = LineSegment::new(vec2(0, 0), vec2(4, 0));
    let b = LineSegment::new(vec2(0, 1), vec2(0, -1));
    expect_multiplier(a.intersection(&b), 0, 1);
    match b.intersection(&a).unwrap() {
        IntersectionOrSlide::Slide(IntersectionSlide::Vertex) => (),
        other => panic!("{:?}", other),
    }
}

#[test]
fn asymetric_end_vertex_overlapping() {
    let a = LineSegment::new(vec2(4, 0), vec2(0, 0));
    let b = LineSegment::new(vec2(0, 1), vec2(0, -1));
    expect_multiplier(a.intersection(&b), 1, 1);
    match b.intersection(&a).unwrap() {
        IntersectionOrSlide::Slide(IntersectionSlide::Vertex) => (),
        other => panic!("{:?}", other),
    }
}

#[test]
fn nearby_lines_intersect() {
    // At integer resolution no two distinct parallel lines are closer
    // than one sub-pixel unit: lines nearer than the resolution are
    // the same line, and coasting along it is a colinear slide.
    let a = LineSegment::new(vec2(10, 10), vec2(20, 10));
    let b = LineSegment::new(vec2(10, 10), vec2(20, 10));
    match a.intersection(&b).unwrap() {
        IntersectionOrSlide::Slide(IntersectionSlide::Colinear) => (),
        other => panic!("{:?}", other),
    }
}

#[test]
fn degenerate_probe_slides() {
    // A zero-length probe grazes anything colinear with its point.
    let a = LineSegment::new(vec2(1, 1), vec2(1, 1));
    let b = LineSegment::new(vec2(0, 0), vec2(2, 2));
    match a.intersection(&b).unwrap() {
        IntersectionOrSlide::Slide(IntersectionSlide::Colinear) => (),
        other => panic!("{:?}", other),
    }
}

#[test]
fn crossing_multiplier_is_exact() {
    // Probe (0,0)->(3,3) against edge (0,4)->(4,0) crosses at t = 2/3.
    let a = LineSegment::new(vec2(0, 0), vec2(3, 3));
    let b = LineSegment::new(vec2(0, 4), vec2(4, 0));
    expect_multiplier(a.intersection(&b), 2, 3);
    let m = multiplier(a.intersection(&b)).unwrap();
    assert!(m.num == 16 && m.den == 24);
}

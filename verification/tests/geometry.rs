//! Boxes, ratios, and the best-candidate selector.

use swept_collision::aabb::Aabb;
use swept_collision::best::BestMap;
use swept_collision::ratio::Ratio;
use swept_collision::vec2::vec2;

#[test]
fn union_contains_both_inputs() {
    let a = Aabb::new(vec2(0, 0), vec2(10, 10));
    let b = Aabb::new(vec2(5, -3), vec2(2, 20));
    let u = Aabb::union(&a, &b);
    assert_eq!(u, Aabb::new(vec2(0, -3), vec2(10, 20)));
    // The union intersects both inputs and any box containing both
    // inputs contains the union: here checked on the corner values.
    assert!(u.is_intersecting(&a));
    assert!(u.is_intersecting(&b));
}

#[test]
fn union_of_nested_is_outer() {
    let outer = Aabb::new(vec2(-5, -5), vec2(20, 20));
    let inner = Aabb::new(vec2(0, 0), vec2(1, 1));
    assert_eq!(Aabb::union(&outer, &inner), outer);
}

#[test]
fn intersection_is_symmetric() {
    let a = Aabb::new(vec2(0, 0), vec2(10, 10));
    let b = Aabb::new(vec2(5, 5), vec2(10, 10));
    let c = Aabb::new(vec2(50, 50), vec2(1, 1));
    assert_eq!(a.is_intersecting(&b), b.is_intersecting(&a));
    assert!(a.is_intersecting(&b));
    assert_eq!(a.is_intersecting(&c), c.is_intersecting(&a));
    assert!(!a.is_intersecting(&c));
}

#[test]
fn edge_touching_boxes_do_not_intersect() {
    let a = Aabb::new(vec2(0, 0), vec2(10, 10));
    let right = Aabb::new(vec2(10, 0), vec2(10, 10));
    let below = Aabb::new(vec2(0, 10), vec2(10, 10));
    let corner = Aabb::new(vec2(10, 10), vec2(10, 10));
    assert!(!a.is_intersecting(&right));
    assert!(!right.is_intersecting(&a));
    assert!(!a.is_intersecting(&below));
    assert!(!a.is_intersecting(&corner));
}

#[test]
fn split_four_quadrants() {
    let a = Aabb::new(vec2(0, 0), vec2(10, 6));
    let split = a.split_four();
    assert_eq!(split.top_left, Aabb::new(vec2(0, 0), vec2(5, 3)));
    assert_eq!(split.top_right, Aabb::new(vec2(5, 0), vec2(5, 3)));
    assert_eq!(split.bottom_left, Aabb::new(vec2(0, 3), vec2(5, 3)));
    assert_eq!(split.bottom_right, Aabb::new(vec2(5, 3), vec2(5, 3)));
}

#[test]
fn centre_and_double_about_centre() {
    let a = Aabb::new(vec2(10, 10), vec2(4, 6));
    assert_eq!(a.centre(), vec2(12, 13));
    let doubled = a.double_about_centre();
    assert_eq!(doubled, Aabb::new(vec2(8, 7), vec2(8, 12)));
}

#[test]
fn from_centre_and_half_size_round_trip() {
    let a = Aabb::from_centre_and_half_size(vec2(5, 5), vec2(2, 3));
    assert_eq!(a, Aabb::new(vec2(3, 2), vec2(4, 6)));
    assert_eq!(a.centre(), vec2(5, 5));
    assert_eq!(a.size(), vec2(4, 6));
}

#[test]
fn ratio_ordering_is_rational() {
    let third = Ratio::new(1, 3);
    let two_fifths = Ratio::new(2, 5);
    let two_sixths = Ratio::new(2, 6);
    assert!(third.lt(two_fifths));
    assert!(!two_fifths.lt(third));
    assert!(third.le(two_sixths));
    assert!(two_sixths.le(third));
    assert!(!third.lt(two_sixths));
}

#[test]
fn ratio_complement() {
    let r = Ratio::new(3, 10);
    let c = r.complement();
    assert_eq!((c.num, c.den), (7, 10));
    assert!(!r.is_one());
    assert!(!r.is_zero());
    assert!(Ratio::new(0, 4).is_zero());
    assert!(Ratio::new(4, 4).is_one());
}

#[test]
fn best_map_le_later_candidate_wins_ties() {
    let mut best: BestMap<&str> = BestMap::new();
    best.insert_le(Ratio::new(1, 2), "first");
    best.insert_le(Ratio::new(1, 2), "second");
    best.insert_le(Ratio::new(3, 4), "late");
    let (key, value) = best.into_key_and_value().unwrap();
    assert_eq!((key.num, key.den), (1, 2));
    assert_eq!(value, "second");
}

#[test]
fn best_map_lt_first_candidate_wins_ties() {
    let mut best: BestMap<&str> = BestMap::new();
    best.insert_lt(Ratio::new(1, 2), "first");
    best.insert_lt(Ratio::new(2, 4), "second");
    best.insert_lt(Ratio::new(1, 4), "earlier");
    let (key, value) = best.into_key_and_value().unwrap();
    assert_eq!((key.num, key.den), (1, 4));
    assert_eq!(value, "earlier");
}

#[test]
fn best_map_empty_yields_none() {
    let best: BestMap<u32> = BestMap::new();
    assert!(best.into_key_and_value().is_none());
}

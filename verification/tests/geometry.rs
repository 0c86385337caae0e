use breakout::fixed::COORD_LIMIT;
use breakout::geometry::{Rect, Vec2, Viewport};

#[test]
fn vec2_adds_and_subtracts_by_component() {
    let a = Vec2::new(120_000, 30_000);
    let b = Vec2::new(5_000, 5_000);
    assert_eq!(a.add(b), Vec2::new(125_000, 35_000));
    assert_eq!(a.sub(b), Vec2::new(115_000, 25_000));
    assert_eq!(b.sub(a), Vec2::new(-115_000, -25_000));
}

#[test]
fn vec2_scales_by_thousandths() {
    assert_eq!(Vec2::new(120_000, -30_000).scale(500), Vec2::new(60_000, -15_000));
    assert_eq!(Vec2::new(3, -3).scale(500), Vec2::new(1, -1));
}

#[test]
fn vec2_signum_counts_zero_as_positive() {
    assert_eq!(Vec2::new(5, -5).signum(), Vec2::new(1, -1));
    assert_eq!(Vec2::new(-1, 1).signum(), Vec2::new(-1, 1));
    assert_eq!(Vec2::new(0, 0).signum(), Vec2::new(1, 1));
}

#[test]
fn vec2_normalize_brings_to_unit_length() {
    assert_eq!(Vec2::new(3, 4).normalize(), Vec2::new(600, 800));
    assert_eq!(Vec2::new(-3, 4).normalize(), Vec2::new(-600, 800));
    assert_eq!(Vec2::new(0, 1000).normalize(), Vec2::new(0, 1000));
    assert_eq!(Vec2::new(0, -7).normalize(), Vec2::new(0, -1000));
    // The length of (1000, 1000) rounds down to 1414.
    assert_eq!(Vec2::new(1000, 1000).normalize(), Vec2::new(707, 707));
}

#[test]
fn vec2_normalize_takes_the_largest_components() {
    assert_eq!(Vec2::new(i64::MIN, 0).normalize(), Vec2::new(-1000, 0));
    assert_eq!(Vec2::new(i64::MAX, i64::MAX).normalize(), Vec2::new(707, 707));
    assert_eq!(Vec2::new(i64::MIN, i64::MIN).normalize(), Vec2::new(-707, -707));
}

#[test]
fn viewport_new_accepts_what_is_in_range() {
    assert_eq!(
        Viewport::new(800_000, 600_000),
        Some(Viewport { width: 800_000, height: 600_000 })
    );
    assert_eq!(Viewport::new(0, 0), Some(Viewport { width: 0, height: 0 }));
    assert_eq!(
        Viewport::new(1_000_000_000, 1_000_000_000),
        Some(Viewport { width: 1_000_000_000, height: 1_000_000_000 })
    );
}

#[test]
fn viewport_new_refuses_what_is_out_of_range() {
    assert_eq!(Viewport::new(-1, 600_000), None);
    assert_eq!(Viewport::new(800_000, -1), None);
    assert_eq!(Viewport::new(1_000_000_001, 600_000), None);
    assert_eq!(Viewport::new(800_000, 1_000_000_001), None);
}

#[test]
fn rect_edges_and_centre() {
    let r = Rect::new(10_000, 20_000, 120_000, 30_000);
    assert_eq!(r.point(), Vec2::new(10_000, 20_000));
    assert_eq!(r.size(), Vec2::new(120_000, 30_000));
    assert_eq!(r.right(), 130_000);
    assert_eq!(r.bottom(), 50_000);
    assert_eq!(r.center(), Vec2::new(70_000, 35_000));
    assert_eq!(r.center_doubled(), Vec2::new(140_000, 70_000));
}

#[test]
fn rect_centre_rounds_each_half_down() {
    let r = Rect::new(-10, -10, 3, 5);
    assert_eq!(r.center(), Vec2::new(-9, -8));
    assert_eq!(r.center_doubled(), Vec2::new(-17, -15));
}

#[test]
fn rect_at_keeps_a_position_in_range() {
    assert_eq!(Rect::at(Vec2::new(5, -7), 10, 20), Rect::new(5, -7, 10, 20));
}

#[test]
fn rect_at_moves_a_position_out_of_range_to_the_edge() {
    assert_eq!(
        Rect::at(Vec2::new(i64::MAX, i64::MIN), 10, 20),
        Rect::new(COORD_LIMIT, -COORD_LIMIT, 10, 20)
    );
}

#[test]
fn intersect_of_overlapping_rectangles_is_the_shared_area() {
    let a = Rect::new(0, 0, 10_000, 10_000);
    let b = Rect::new(5_000, 2_000, 10_000, 3_000);
    assert_eq!(a.intersect(b), Some(Rect::new(5_000, 2_000, 5_000, 3_000)));
    assert_eq!(b.intersect(a), Some(Rect::new(5_000, 2_000, 5_000, 3_000)));
}

#[test]
fn intersect_of_nested_rectangles_is_the_inner_one() {
    let outer = Rect::new(-100, -100, 1_000, 1_000);
    let inner = Rect::new(10, 20, 30, 40);
    assert_eq!(outer.intersect(inner), Some(inner));
    assert_eq!(inner.intersect(outer), Some(inner));
    assert_eq!(inner.intersect(inner), Some(inner));
}

#[test]
fn intersect_of_rectangles_apart_is_none() {
    let a = Rect::new(0, 0, 10, 10);
    assert_eq!(a.intersect(Rect::new(11, 0, 10, 10)), None);
    assert_eq!(a.intersect(Rect::new(0, 11, 10, 10)), None);
    assert_eq!(a.intersect(Rect::new(-20, 0, 10, 10)), None);
    assert_eq!(a.intersect(Rect::new(0, -20, 10, 10)), None);
}

#[test]
fn intersect_of_rectangles_that_only_touch_is_none() {
    let a = Rect::new(0, 0, 10, 10);
    assert_eq!(a.intersect(Rect::new(10, 0, 10, 10)), None);
    assert_eq!(a.intersect(Rect::new(0, 10, 10, 10)), None);
    assert_eq!(a.intersect(Rect::new(-10, 0, 10, 10)), None);
    assert_eq!(a.intersect(Rect::new(10, 10, 10, 10)), None);
}

#[test]
fn intersect_with_an_empty_rectangle_is_none() {
    let a = Rect::new(0, 0, 10, 10);
    assert_eq!(a.intersect(Rect::new(5, 5, 0, 3)), None);
    assert_eq!(a.intersect(Rect::new(5, 5, 3, 0)), None);
}

#[test]
fn intersect_of_the_thinnest_overlap() {
    let a = Rect::new(0, 0, 10, 10);
    assert_eq!(a.intersect(Rect::new(9, 9, 10, 10)), Some(Rect::new(9, 9, 1, 1)));
}

#[test]
fn intersect_at_the_edge_of_the_range() {
    let a = Rect::new(COORD_LIMIT, COORD_LIMIT, COORD_LIMIT, COORD_LIMIT);
    let b = Rect::new(-COORD_LIMIT, -COORD_LIMIT, COORD_LIMIT, COORD_LIMIT);
    assert_eq!(a.intersect(b), None);
    assert_eq!(a.intersect(a), Some(a));
}

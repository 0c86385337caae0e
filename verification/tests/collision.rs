use breakout::collision::{resolve_collision, resolve_collision_with};
use breakout::fixed::COORD_LIMIT;
use breakout::geometry::{Rect, Vec2};

fn block() -> Rect {
    Rect::new(100_000, 100_000, 120_000, 30_000)
}

fn paddle() -> Rect {
    Rect::new(320_000, 520_000, 160_000, 40_000)
}

#[test]
fn an_overlap_taller_than_wide_bounces_sideways() {
    // The shared area is 10 units wide and 20 units tall.
    let mut a = Rect::new(70_000, 110_000, 40_000, 40_000);
    let mut v = Vec2::new(500, 1000);
    assert_eq!(a.intersect(block()), Some(Rect::new(100_000, 110_000, 10_000, 20_000)));
    assert!(resolve_collision_with(&mut a, &mut v, &block(), 1050));
    assert_eq!(a, Rect::new(60_000, 110_000, 40_000, 40_000));
    assert_eq!(v, Vec2::new(-500, 1050));
}

#[test]
fn the_jitter_scales_the_other_axis() {
    let mut a = Rect::new(70_000, 110_000, 40_000, 40_000);
    let mut v = Vec2::new(500, 1000);
    assert!(resolve_collision_with(&mut a, &mut v, &block(), 980));
    assert_eq!(v, Vec2::new(-500, 980));
    let mut a = Rect::new(70_000, 110_000, 40_000, 40_000);
    let mut v = Vec2::new(500, -707);
    assert!(resolve_collision_with(&mut a, &mut v, &block(), 1050));
    assert_eq!(v, Vec2::new(-500, -742));
}

#[test]
fn a_bounce_sideways_turns_the_ball_away_from_the_block() {
    // From the left, already moving away: the velocity keeps pointing away.
    let mut a = Rect::new(70_000, 110_000, 40_000, 40_000);
    let mut v = Vec2::new(-500, 1000);
    assert!(resolve_collision_with(&mut a, &mut v, &block(), 1000));
    assert_eq!(v, Vec2::new(-500, 1000));
    // From the right: pushed to the right, turned to the right.
    let mut a = Rect::new(210_000, 110_000, 40_000, 40_000);
    let mut v = Vec2::new(-500, 1000);
    assert!(resolve_collision_with(&mut a, &mut v, &block(), 1000));
    assert_eq!(a, Rect::new(220_000, 110_000, 40_000, 40_000));
    assert_eq!(v, Vec2::new(500, 1000));
}

#[test]
fn an_overlap_wider_than_tall_bounces_up_or_down() {
    // A ball that has sunk four units into the top of the paddle.
    let mut a = Rect::new(400_000, 508_000, 16_000, 16_000);
    let mut v = Vec2::new(500, 1000);
    assert!(resolve_collision_with(&mut a, &mut v, &paddle(), 1050));
    assert_eq!(a, Rect::new(400_000, 504_000, 16_000, 16_000));
    assert_eq!(v, Vec2::new(525, -1000));
    // A ball that has risen four units into its bottom.
    let mut a = Rect::new(400_000, 556_000, 16_000, 16_000);
    let mut v = Vec2::new(-500, -1000);
    assert!(resolve_collision_with(&mut a, &mut v, &paddle(), 980));
    assert_eq!(a, Rect::new(400_000, 560_000, 16_000, 16_000));
    assert_eq!(v, Vec2::new(-490, 1000));
}

#[test]
fn a_square_overlap_bounces_sideways() {
    let mut a = Rect::new(90_000, 90_000, 20_000, 20_000);
    let mut v = Vec2::new(500, 1000);
    assert_eq!(a.intersect(block()), Some(Rect::new(100_000, 100_000, 10_000, 10_000)));
    assert!(resolve_collision_with(&mut a, &mut v, &block(), 1000));
    assert_eq!(a, Rect::new(80_000, 90_000, 20_000, 20_000));
    assert_eq!(v, Vec2::new(-500, 1000));
}

#[test]
fn rectangles_apart_do_not_collide() {
    let mut a = Rect::new(0, 0, 40_000, 40_000);
    let mut v = Vec2::new(500, 1000);
    assert!(!resolve_collision_with(&mut a, &mut v, &block(), 1050));
    assert_eq!(a, Rect::new(0, 0, 40_000, 40_000));
    assert_eq!(v, Vec2::new(500, 1000));
}

#[test]
fn rectangles_that_touch_do_not_collide() {
    let mut a = Rect::new(60_000, 110_000, 40_000, 40_000);
    let mut v = Vec2::new(500, 1000);
    assert!(!resolve_collision_with(&mut a, &mut v, &block(), 1050));
    assert_eq!(a, Rect::new(60_000, 110_000, 40_000, 40_000));
    assert_eq!(v, Vec2::new(500, 1000));
    assert!(!resolve_collision(&mut a, &mut v, &block()));
    assert_eq!(a, Rect::new(60_000, 110_000, 40_000, 40_000));
    assert_eq!(v, Vec2::new(500, 1000));
}

#[test]
fn rectangles_with_level_centres_part_up_or_to_the_left() {
    let mut a = Rect::new(0, 0, 10, 10);
    let mut v = Vec2::new(500, 1000);
    assert!(resolve_collision_with(&mut a, &mut v, &Rect::new(0, 0, 10, 10), 1000));
    assert_eq!(a, Rect::new(-10, 0, 10, 10));
    assert_eq!(v, Vec2::new(-500, 1000));
    let mut a = Rect::new(0, 0, 20, 10);
    let mut v = Vec2::new(500, 1000);
    assert!(resolve_collision_with(&mut a, &mut v, &Rect::new(0, 0, 20, 10), 1000));
    assert_eq!(a, Rect::new(0, -10, 20, 10));
    assert_eq!(v, Vec2::new(500, -1000));
}

#[test]
fn centres_half_a_unit_apart_still_tell_the_side() {
    // The centre of `a` is at 1.5, that of `b` at 1: `b` lies to the left.
    let mut a = Rect::new(0, 0, 3, 10);
    let mut v = Vec2::new(500, 1000);
    assert!(resolve_collision_with(&mut a, &mut v, &Rect::new(0, 0, 2, 10), 1000));
    assert_eq!(a, Rect::new(2, 0, 3, 10));
    assert_eq!(v, Vec2::new(500, 1000));
}

#[test]
fn a_bounce_off_the_paddle_parts_ball_and_paddle() {
    let mut a = Rect::new(400_000, 508_000, 16_000, 16_000);
    let mut v = Vec2::new(500, 1000);
    assert!(resolve_collision(&mut a, &mut v, &paddle()));
    assert_eq!(a.intersect(paddle()), None);
    assert!(!resolve_collision(&mut a, &mut v, &paddle()));
    // At the paddle's left end, sideways.
    let mut a = Rect::new(306_000, 530_000, 16_000, 16_000);
    let mut v = Vec2::new(500, 1000);
    assert!(resolve_collision(&mut a, &mut v, &paddle()));
    assert_eq!(a, Rect::new(304_000, 530_000, 16_000, 16_000));
    assert_eq!(a.intersect(paddle()), None);
}

#[test]
fn a_ball_deep_inside_the_paddle_is_not_parted_from_it() {
    let mut a = Rect::new(400_000, 530_000, 16_000, 16_000);
    let mut v = Vec2::new(500, 1000);
    assert!(resolve_collision_with(&mut a, &mut v, &paddle(), 1000));
    assert_eq!(a, Rect::new(416_000, 530_000, 16_000, 16_000));
    assert_eq!(v, Vec2::new(500, 1000));
    assert_eq!(a.intersect(paddle()), Some(a));
}

#[test]
fn a_push_stops_at_the_end_of_the_range() {
    let mut a = Rect::new(-COORD_LIMIT, 0, 10, 10);
    let mut v = Vec2::new(500, 1000);
    let b = Rect::new(-COORD_LIMIT + 5, -100, 10, 210);
    assert!(resolve_collision_with(&mut a, &mut v, &b, 1000));
    assert_eq!(a, Rect::new(-COORD_LIMIT, 0, 10, 10));
    assert_eq!(v, Vec2::new(-500, 1000));
}

#[test]
fn the_jitter_stops_at_the_end_of_the_range() {
    let mut a = Rect::new(70_000, 110_000, 40_000, 40_000);
    let mut v = Vec2::new(COORD_LIMIT, -COORD_LIMIT);
    assert!(resolve_collision_with(&mut a, &mut v, &block(), 1050));
    assert_eq!(v, Vec2::new(-COORD_LIMIT, -COORD_LIMIT));
    let mut a = Rect::new(70_000, 110_000, 40_000, 40_000);
    let mut v = Vec2::new(COORD_LIMIT, -COORD_LIMIT);
    assert!(resolve_collision_with(&mut a, &mut v, &block(), 980));
    assert_eq!(v, Vec2::new(-COORD_LIMIT, -980_000_000_000));
}

#[test]
fn a_reflection_keeps_the_speed() {
    let mut a = Rect::new(70_000, 110_000, 40_000, 40_000);
    let mut v = Vec2::new(600, 800);
    assert!(resolve_collision_with(&mut a, &mut v, &block(), 1000));
    assert_eq!(v, Vec2::new(-600, 800));
    assert_eq!(v.x * v.x + v.y * v.y, 1_000_000);
    let mut a = Rect::new(400_000, 508_000, 16_000, 16_000);
    let mut v = Vec2::new(-707, 707);
    assert!(resolve_collision_with(&mut a, &mut v, &paddle(), 1000));
    assert_eq!(v, Vec2::new(-707, -707));
}

#[test]
fn a_random_bounce_stays_within_the_jitter() {
    let mut n = 0;
    while n < 300 {
        let mut a = Rect::new(70_000, 110_000, 40_000, 40_000);
        let mut v = Vec2::new(500, 1_000_000);
        assert!(resolve_collision(&mut a, &mut v, &block()));
        assert_eq!(a, Rect::new(60_000, 110_000, 40_000, 40_000));
        assert_eq!(v.x, -500);
        assert!(v.y >= 980_000 && v.y <= 1_050_000, "jitter gave {}", v.y);
        assert_eq!(v.y % 1000, 0);
        n += 1;
    }
}

#[test]
fn random_bounces_differ_in_jitter() {
    let mut seen_other_than_least = false;
    let mut seen_other_than_most = false;
    let mut n = 0;
    while n < 300 {
        let mut a = Rect::new(70_000, 110_000, 40_000, 40_000);
        let mut v = Vec2::new(500, 1_000_000);
        resolve_collision(&mut a, &mut v, &block());
        seen_other_than_least = seen_other_than_least || v.y != 980_000;
        seen_other_than_most = seen_other_than_most || v.y != 1_050_000;
        n += 1;
    }
    assert!(seen_other_than_least);
    assert!(seen_other_than_most);
}

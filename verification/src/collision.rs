//! The bounce of a moving rectangle off a resting one.

use crate::chance::roll;
use crate::fixed::{clamp_coord, clamped, in_range, magnitude, scale, scaled, UNIT};
use crate::geometry::{sign_of, Rect, Vec2};
use vstd::prelude::*;

verus! {

/// The least factor, in thousandths, by which a bounce perturbs the
/// velocity along the axis that it does not turn.
pub const JITTER_MIN: i32 = 980;

/// The largest such factor.
pub const JITTER_MAX: i32 = 1050;

/// On which side of `a` the centre of `b` lies horizontally: `1` to the
/// right or level, `-1` to the left.
pub open spec fn side_x(a: Rect, b: Rect) -> int {
    sign_of(b.center_doubled().x - a.center_doubled().x)
}

/// On which side of `a` the centre of `b` lies vertically: `1` below or
/// level, `-1` above.
pub open spec fn side_y(a: Rect, b: Rect) -> int {
    sign_of(b.center_doubled().y - a.center_doubled().y)
}

/// Whether `a` bounces off `b` vertically: it does where the area they
/// share is wider than tall. Otherwise it bounces horizontally.
pub open spec fn bounces_vertically(a: Rect, b: Rect) -> bool {
    a.overlap(b).w > a.overlap(b).h
}

/// A coordinate moved by `amount` away from the given side.
pub open spec fn moved_away(pos: int, side: int, amount: int) -> int {
    if side >= 0 {
        pos - amount
    } else {
        pos + amount
    }
}

/// A velocity component turned against the given side, at the same magnitude.
pub open spec fn turned_away(v: int, side: int) -> int {
    if side >= 0 {
        -magnitude(v)
    } else {
        magnitude(v)
    }
}

/// `a` pushed out of `b`: moved along the axis of the bounce, away from the
/// centre of `b`, by the extent of the shared area along that axis.
pub open spec fn pushed_out(a: Rect, b: Rect) -> Rect {
    if bounces_vertically(a, b) {
        Rect { y: clamped(moved_away(a.y as int, side_y(a, b), a.overlap(b).h as int)) as i64, ..a }
    } else {
        Rect { x: clamped(moved_away(a.x as int, side_x(a, b), a.overlap(b).w as int)) as i64, ..a }
    }
}

/// The velocity `v` of `a` turned back from `b`: the component along the
/// axis of the bounce points away from the centre of `b` and keeps its
/// magnitude; the other component stays.
pub open spec fn reflected(a: Rect, v: Vec2, b: Rect) -> Vec2 {
    if bounces_vertically(a, b) {
        Vec2 { x: v.x, y: turned_away(v.y as int, side_y(a, b)) as i64 }
    } else {
        Vec2 { x: turned_away(v.x as int, side_x(a, b)) as i64, y: v.y }
    }
}

/// A reflected velocity with the component across the axis of the bounce
/// multiplied by `jitter` thousandths.
pub open spec fn perturbed(a: Rect, v: Vec2, b: Rect, jitter: int) -> Vec2 {
    if bounces_vertically(a, b) {
        Vec2 { x: clamped(scaled(v.x as int, jitter)) as i64, y: v.y }
    } else {
        Vec2 { x: v.x, y: clamped(scaled(v.y as int, jitter)) as i64 }
    }
}

/// The rectangle `a` and its velocity `v` after meeting `b`: unchanged
/// where the two do not overlap, and otherwise pushed out, reflected and
/// perturbed by `jitter`.
pub open spec fn bounced(a: Rect, v: Vec2, b: Rect, jitter: int) -> (Rect, Vec2) {
    if a.overlaps(b) {
        (pushed_out(a, b), perturbed(a, reflected(a, v, b), b, jitter))
    } else {
        (a, v)
    }
}

/// Whether two intervals are staggered: neither lies strictly inside the other.
pub open spec fn staggered(a_low: int, a_high: int, b_low: int, b_high: int) -> bool {
    (a_low <= b_low && a_high <= b_high) || (a_low >= b_low && a_high >= b_high)
}

/// Whether pushing `a` out of `b` parts the two: along the axis of the
/// bounce they are staggered, and the coordinate range has room for the push.
pub open spec fn separable(a: Rect, b: Rect) -> bool {
    if bounces_vertically(a, b) {
        staggered(a.y as int, a.bottom_edge(), b.y as int, b.bottom_edge()) && in_range(
            moved_away(a.y as int, side_y(a, b), a.overlap(b).h as int),
        )
    } else {
        staggered(a.x as int, a.right_edge(), b.x as int, b.right_edge()) && in_range(
            moved_away(a.x as int, side_x(a, b), a.overlap(b).w as int),
        )
    }
}

/// The magnitude of a velocity component.
fn abs(v: i64) -> (r: i64)
    requires
        in_range(v as int),
    ensures
        r == magnitude(v as int),
{
    if v >= 0 {
        v
    } else {
        -v
    }
}

/// `pos` moved by `amount` away from `side`, kept within the coordinate range.
fn move_away(pos: i64, side: i64, amount: i64) -> (r: i64)
    requires
        in_range(pos as int),
        in_range(amount as int),
    ensures
        r == clamped(moved_away(pos as int, side as int, amount as int)),
{
    if side >= 0 {
        clamp_coord(pos - amount)
    } else {
        clamp_coord(pos + amount)
    }
}

/// `v` turned against `side`.
fn turn_away(v: i64, side: i64) -> (r: i64)
    requires
        in_range(v as int),
    ensures
        r == turned_away(v as int, side as int),
        in_range(r as int),
{
    if side >= 0 {
        -abs(v)
    } else {
        abs(v)
    }
}

/// Lets `a`, moving at `vel`, bounce off `b` with the given jitter, and
/// says whether the two met.
pub fn resolve_collision_with(a: &mut Rect, vel: &mut Vec2, b: &Rect, jitter: i32) -> (hit: bool)
    requires
        old(a).wf(),
        old(vel).in_range(),
        b.wf(),
        JITTER_MIN <= jitter <= JITTER_MAX,
    ensures
        hit == old(a).overlaps(*b),
        (*final(a), *final(vel)) == bounced(*old(a), *old(vel), *b, jitter as int),
        final(a).wf(),
        final(vel).in_range(),
        final(a).w == old(a).w,
        final(a).h == old(a).h,
{
    let intersection = match a.intersect(*b) {
        Some(intersection) => intersection,
        None => {
            return false;
        },
    };
    let to = b.center_doubled().sub(a.center_doubled());
    let to_signum = to.signum();
    if intersection.w > intersection.h {
        a.y = move_away(a.y, to_signum.y, intersection.h);
        vel.y = turn_away(vel.y, to_signum.y);
        vel.x = clamp_coord(scale(vel.x, jitter as i64));
    } else {
        a.x = move_away(a.x, to_signum.x, intersection.w);
        vel.x = turn_away(vel.x, to_signum.x);
        vel.y = clamp_coord(scale(vel.y, jitter as i64));
    }
    true
}

/// Lets `a`, moving at `vel`, bounce off `b` with a jitter drawn at random
/// where the two meet, and says whether they met.
pub fn resolve_collision(a: &mut Rect, vel: &mut Vec2, b: &Rect) -> (hit: bool)
    requires
        old(a).wf(),
        old(vel).in_range(),
        b.wf(),
    ensures
        hit == old(a).overlaps(*b),
        exists|jitter: int|
            JITTER_MIN <= jitter <= JITTER_MAX && (*final(a), *final(vel)) == #[trigger] bounced(
                *old(a),
                *old(vel),
                *b,
                jitter,
            ),
        final(a).wf(),
        final(vel).in_range(),
        final(a).w == old(a).w,
        final(a).h == old(a).h,
{
    if a.intersect(*b).is_none() {
        assert((*a, *vel) == bounced(*a, *vel, *b, JITTER_MIN as int));
        return false;
    }
    let jitter: i32 = roll(JITTER_MIN, JITTER_MAX);
    let hit = resolve_collision_with(a, vel, b, jitter);
    assert((*a, *vel) == bounced(*old(a), *old(vel), *b, jitter as int));
    hit
}

/// Turning a velocity back from an obstacle keeps its magnitude: the
/// squared length, and with it the length, is the same before and after.
/// A bounce whose jitter is exactly one does nothing more to the velocity.
pub proof fn lemma_reflection_keeps_speed(a: Rect, v: Vec2, b: Rect)
    requires
        a.wf(),
        b.wf(),
        v.in_range(),
    ensures
        reflected(a, v, b).length_squared() == v.length_squared(),
        reflected(a, v, b).length() == v.length(),
        a.overlaps(b) ==> bounced(a, v, b, UNIT as int).1 == reflected(a, v, b),
{
    let r = reflected(a, v, b);
    assert(r.x == v.x || r.x == -v.x);
    assert(r.y == v.y || r.y == -v.y);
    assert(r.x * r.x == v.x * v.x) by (nonlinear_arith)
        requires
            r.x == v.x || r.x == -v.x,
    ;
    assert(r.y * r.y == v.y * v.y) by (nonlinear_arith)
        requires
            r.y == v.y || r.y == -v.y,
    ;
    assert(scaled(r.x as int, 1000) == r.x);
    assert(scaled(r.y as int, 1000) == r.y);
}

/// A bounce parts the two rectangles exactly where they are separable: it
/// leaves them overlapping where one lies strictly inside the other along
/// the axis of the bounce, or where the coordinate range ends before the
/// push does.
pub proof fn lemma_bounce_separates(a: Rect, v: Vec2, b: Rect, jitter: int)
    requires
        a.wf(),
        b.wf(),
        a.overlaps(b),
    ensures
        !bounced(a, v, b, jitter).0.overlaps(b) <==> separable(a, b),
{
}

} // verus!

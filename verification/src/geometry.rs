//! Vectors, axis-aligned rectangles and the viewport, in fixed point.

use crate::fixed::{
    clamp_coord, clamped, floor_sqrt, floor_sqrt_of, in_range, is_floor_sqrt,
    lemma_product_bound, lemma_square_monotone, quot, scaled, COORD_LIMIT, FACTOR_LIMIT, UNIT,
    VIEW_LIMIT,
};
use vstd::prelude::*;

verus! {

/// The sign of `v`, with zero counted as positive: a direction always has a
/// side, so that turning a velocity against it never loses the velocity.
pub open spec fn sign_of(v: int) -> int {
    if v >= 0 {
        1
    } else {
        -1
    }
}

/// A pair of fixed-point components: a position, a size or a velocity.
#[derive(Clone, Copy, Debug, PartialEq, Eq, Structural)]
pub struct Vec2 {
    pub x: i64,
    pub y: i64,
}

impl Vec2 {
    /// Whether both components are within the coordinate range.
    pub open spec fn in_range(self) -> bool {
        in_range(self.x as int) && in_range(self.y as int)
    }

    /// The square of the vector's length.
    pub open spec fn length_squared(self) -> int {
        self.x * self.x + self.y * self.y
    }

    /// The vector's length, rounded down.
    pub open spec fn length(self) -> int {
        floor_sqrt_of(self.length_squared())
    }

    /// The vector brought to length `UNIT`: each component times `UNIT`,
    /// divided by the rounded-down length, rounded toward zero.
    pub open spec fn normalized(self) -> Vec2 {
        Vec2 {
            x: quot(self.x * UNIT, self.length()) as i64,
            y: quot(self.y * UNIT, self.length()) as i64,
        }
    }

    /// The vector with the given components.
    pub fn new(x: i64, y: i64) -> (r: Vec2)
        ensures
            r.x == x,
            r.y == y,
    {
        Vec2 { x, y }
    }

    /// Whether both components are within the coordinate range.
    pub fn is_in_range(&self) -> (ok: bool)
        ensures
            ok == self.in_range(),
    {
        -COORD_LIMIT <= self.x && self.x <= COORD_LIMIT && -COORD_LIMIT <= self.y && self.y
            <= COORD_LIMIT
    }

    /// The component-wise sum.
    pub fn add(self, rhs: Vec2) -> (r: Vec2)
        requires
            i64::MIN <= self.x + rhs.x <= i64::MAX,
            i64::MIN <= self.y + rhs.y <= i64::MAX,
        ensures
            r.x == self.x + rhs.x,
            r.y == self.y + rhs.y,
    {
        Vec2 { x: self.x + rhs.x, y: self.y + rhs.y }
    }

    /// The component-wise difference.
    pub fn sub(self, rhs: Vec2) -> (r: Vec2)
        requires
            i64::MIN <= self.x - rhs.x <= i64::MAX,
            i64::MIN <= self.y - rhs.y <= i64::MAX,
        ensures
            r.x == self.x - rhs.x,
            r.y == self.y - rhs.y,
    {
        Vec2 { x: self.x - rhs.x, y: self.y - rhs.y }
    }

    /// Both components multiplied by `factor` thousandths.
    pub fn scale(self, factor: i64) -> (r: Vec2)
        requires
            self.in_range(),
            -FACTOR_LIMIT <= factor <= FACTOR_LIMIT,
        ensures
            r.x == scaled(self.x as int, factor as int),
            r.y == scaled(self.y as int, factor as int),
    {
        Vec2 { x: crate::fixed::scale(self.x, factor), y: crate::fixed::scale(self.y, factor) }
    }

    /// The sign of each component, zero counted as positive.
    pub fn signum(self) -> (r: Vec2)
        ensures
            r.x == sign_of(self.x as int),
            r.y == sign_of(self.y as int),
    {
        Vec2 { x: if self.x >= 0 { 1 } else { -1 }, y: if self.y >= 0 { 1 } else { -1 } }
    }

    /// The vector brought to length `UNIT`. The zero vector has no direction.
    pub fn normalize(self) -> (r: Vec2)
        requires
            self.x != 0 || self.y != 0,
        ensures
            r == self.normalized(),
            -UNIT <= r.x <= UNIT,
            -UNIT <= r.y <= UNIT,
    {
        let ax: u128 = magnitude_of(self.x);
        let ay: u128 = magnitude_of(self.y);
        proof {
            lemma_square_monotone(ax as int, 0x8000_0000_0000_0000);
            lemma_square_monotone(ay as int, 0x8000_0000_0000_0000);
            assert(ax * ax == self.x * self.x) by (nonlinear_arith)
                requires
                    ax == self.x || ax == -self.x,
            ;
            assert(ay * ay == self.y * self.y) by (nonlinear_arith)
                requires
                    ay == self.y || ay == -self.y,
            ;
        }
        let len: u64 = floor_sqrt(ax * ax + ay * ay);
        proof {
            lemma_component_within_length(self.x as int, self.y as int, len as int);
            lemma_component_within_length(self.y as int, self.x as int, len as int);
        }
        let x: i64 = towards_unit(self.x, len);
        let y: i64 = towards_unit(self.y, len);
        Vec2 { x, y }
    }
}

/// The absolute value of a machine integer, widened so that it always fits.
fn magnitude_of(v: i64) -> (r: u128)
    ensures
        r == crate::fixed::magnitude(v as int),
        r <= 0x8000_0000_0000_0000,
{
    if v >= 0 {
        v as u128
    } else {
        (-(v as i128)) as u128
    }
}

/// One component of a normalised vector: `c * UNIT / len`, rounded toward zero.
fn towards_unit(c: i64, len: u64) -> (r: i64)
    requires
        len >= 1,
        -len <= c <= len,
    ensures
        r == quot(c * UNIT, len as int),
        -UNIT <= r <= UNIT,
{
    proof {
        lemma_product_bound(c as int, UNIT as int, 0x8000_0000_0000_0000, UNIT as int);
        lemma_unit_quotient(c as int, len as int);
    }
    let q: i128 = ((c as i128) * (UNIT as i128)) / (len as i128);
    q as i64
}

/// A component no longer than `len` comes out of the division within `UNIT`.
proof fn lemma_unit_quotient(c: int, len: int)
    by (nonlinear_arith)
    requires
        len >= 1,
        -len <= c <= len,
    ensures
        -UNIT <= quot(c * UNIT, len) <= UNIT,
{
}

/// No component of a vector is longer than the vector, and a vector that is
/// not zero has a rounded-down length of at least one.
pub proof fn lemma_component_within_length(c: int, d: int, len: int)
    requires
        is_floor_sqrt(len, c * c + d * d),
    ensures
        -len <= c <= len,
        (c != 0 || d != 0) ==> len >= 1,
{
    assert(d * d >= 0) by (nonlinear_arith);
    assert(c * c >= 0) by (nonlinear_arith);
    if c > len {
        lemma_square_monotone(len + 1, c);
    }
    if -c > len {
        lemma_square_monotone(len + 1, -c);
        assert((-c) * (-c) == c * c) by (nonlinear_arith);
    }
    if c != 0 {
        assert(c * c >= 1) by (nonlinear_arith)
            requires
                c != 0,
        ;
    }
    if d != 0 {
        assert(d * d >= 1) by (nonlinear_arith)
            requires
                d != 0,
        ;
    }
}

/// The drawable area, read anew for every tick.
#[derive(Clone, Copy, Debug, PartialEq, Eq, Structural)]
pub struct Viewport {
    pub width: i64,
    pub height: i64,
}

impl Viewport {
    /// Whether both extents are between zero and `VIEW_LIMIT`.
    pub open spec fn wf(self) -> bool {
        0 <= self.width <= VIEW_LIMIT && 0 <= self.height <= VIEW_LIMIT
    }

    /// A viewport of the given extents, if they are between zero and `VIEW_LIMIT`.
    pub fn new(width: i64, height: i64) -> (r: Option<Viewport>)
        ensures
            r == if 0 <= width <= VIEW_LIMIT && 0 <= height <= VIEW_LIMIT {
                Some(Viewport { width, height })
            } else {
                None
            },
    {
        if 0 <= width && width <= VIEW_LIMIT && 0 <= height && height <= VIEW_LIMIT {
            Some(Viewport { width, height })
        } else {
            None
        }
    }
}

/// An axis-aligned rectangle: its top-left corner and its size. A point
/// belongs to it from the left and top edges up to, but without, the right
/// and bottom edges.
#[derive(Clone, Copy, Debug, PartialEq, Eq, Structural)]
pub struct Rect {
    pub x: i64,
    pub y: i64,
    pub w: i64,
    pub h: i64,
}

impl Rect {
    /// Whether the corner is within the coordinate range and the size is
    /// neither negative nor beyond it.
    pub open spec fn wf(self) -> bool {
        &&& in_range(self.x as int)
        &&& in_range(self.y as int)
        &&& 0 <= self.w <= COORD_LIMIT
        &&& 0 <= self.h <= COORD_LIMIT
    }

    /// The rectangle of the given size whose corner is the point of the
    /// coordinate range that is nearest to `(x, y)`.
    pub open spec fn placed(x: int, y: int, w: int, h: int) -> Rect {
        Rect { x: clamped(x) as i64, y: clamped(y) as i64, w: w as i64, h: h as i64 }
    }

    /// The right edge.
    pub open spec fn right_edge(self) -> int {
        self.x + self.w
    }

    /// The bottom edge.
    pub open spec fn bottom_edge(self) -> int {
        self.y + self.h
    }

    /// Whether the point `(px, py)` belongs to the rectangle.
    pub open spec fn contains(self, px: int, py: int) -> bool {
        self.x <= px < self.right_edge() && self.y <= py < self.bottom_edge()
    }

    /// The centre, each half rounded down.
    pub open spec fn spec_center(&self) -> Vec2 {
        Vec2 { x: (self.x + self.w / 2) as i64, y: (self.y + self.h / 2) as i64 }
    }

    /// Twice the centre, which is exact where the centre itself falls
    /// between two sub-units.
    pub open spec fn spec_center_doubled(&self) -> Vec2 {
        Vec2 { x: (2 * self.x + self.w) as i64, y: (2 * self.y + self.h) as i64 }
    }

    /// The left edge of the area shared with `other`.
    pub open spec fn shared_left(self, other: Rect) -> int {
        if self.x >= other.x {
            self.x as int
        } else {
            other.x as int
        }
    }

    /// The top edge of the area shared with `other`.
    pub open spec fn shared_top(self, other: Rect) -> int {
        if self.y >= other.y {
            self.y as int
        } else {
            other.y as int
        }
    }

    /// The right edge of the area shared with `other`.
    pub open spec fn shared_right(self, other: Rect) -> int {
        if self.right_edge() <= other.right_edge() {
            self.right_edge()
        } else {
            other.right_edge()
        }
    }

    /// The bottom edge of the area shared with `other`.
    pub open spec fn shared_bottom(self, other: Rect) -> int {
        if self.bottom_edge() <= other.bottom_edge() {
            self.bottom_edge()
        } else {
            other.bottom_edge()
        }
    }

    /// Whether the two rectangles share an area of positive width and
    /// height. Rectangles that only touch along an edge do not overlap.
    pub open spec fn overlaps(self, other: Rect) -> bool {
        self.shared_left(other) < self.shared_right(other) && self.shared_top(other)
            < self.shared_bottom(other)
    }

    /// The area shared by two overlapping rectangles.
    pub open spec fn overlap(self, other: Rect) -> Rect {
        Rect {
            x: self.shared_left(other) as i64,
            y: self.shared_top(other) as i64,
            w: (self.shared_right(other) - self.shared_left(other)) as i64,
            h: (self.shared_bottom(other) - self.shared_top(other)) as i64,
        }
    }

    /// The rectangle with the given corner and size.
    pub fn new(x: i64, y: i64, w: i64, h: i64) -> (r: Rect)
        ensures
            r == (Rect { x, y, w, h }),
    {
        Rect { x, y, w, h }
    }

    /// Whether the rectangle is well formed.
    pub fn is_valid(&self) -> (ok: bool)
        ensures
            ok == self.wf(),
    {
        -COORD_LIMIT <= self.x && self.x <= COORD_LIMIT && -COORD_LIMIT <= self.y && self.y
            <= COORD_LIMIT && 0 <= self.w && self.w <= COORD_LIMIT && 0 <= self.h && self.h
            <= COORD_LIMIT
    }

    /// The rectangle of the given size with its corner at `pos`, or at the
    /// nearest point of the coordinate range where `pos` lies outside it.
    pub fn at(pos: Vec2, w: i64, h: i64) -> (r: Rect)
        requires
            0 <= w <= COORD_LIMIT,
            0 <= h <= COORD_LIMIT,
        ensures
            r == Rect::placed(pos.x as int, pos.y as int, w as int, h as int),
            r.wf(),
    {
        Rect { x: clamp_coord(pos.x), y: clamp_coord(pos.y), w, h }
    }

    /// The top-left corner.
    pub fn point(&self) -> (r: Vec2)
        ensures
            r.x == self.x,
            r.y == self.y,
    {
        Vec2 { x: self.x, y: self.y }
    }

    /// The width and the height.
    pub fn size(&self) -> (r: Vec2)
        ensures
            r.x == self.w,
            r.y == self.h,
    {
        Vec2 { x: self.w, y: self.h }
    }

    /// The right edge.
    pub fn right(&self) -> (r: i64)
        requires
            self.wf(),
        ensures
            r == self.right_edge(),
    {
        self.x + self.w
    }

    /// The bottom edge.
    pub fn bottom(&self) -> (r: i64)
        requires
            self.wf(),
        ensures
            r == self.bottom_edge(),
    {
        self.y + self.h
    }

    /// The centre: the corner plus half the size, each half rounded down.
    #[verifier::when_used_as_spec(spec_center)]
    pub fn center(&self) -> (r: Vec2)
        requires
            self.wf(),
        ensures
            r == self.spec_center(),
            r.x == self.x + self.w / 2,
            r.y == self.y + self.h / 2,
    {
        self.point().add(self.size().scale(UNIT / 2))
    }

    /// Twice the centre: twice the corner plus the size.
    #[verifier::when_used_as_spec(spec_center_doubled)]
    pub fn center_doubled(&self) -> (r: Vec2)
        requires
            self.wf(),
        ensures
            r == self.spec_center_doubled(),
            r.x == 2 * self.x + self.w,
            r.y == 2 * self.y + self.h,
    {
        self.point().add(self.point()).add(self.size())
    }

    /// The area shared with `other`, if it has positive width and height.
    pub fn intersect(&self, other: Rect) -> (r: Option<Rect>)
        requires
            self.wf(),
            other.wf(),
        ensures
            r == if self.overlaps(other) {
                Some(self.overlap(other))
            } else {
                None
            },
            r matches Some(shared) ==> shared.wf() && shared.w > 0 && shared.h > 0,
    {
        let left: i64 = if self.x >= other.x { self.x } else { other.x };
        let top: i64 = if self.y >= other.y { self.y } else { other.y };
        let right: i64 = if self.right() <= other.right() { self.right() } else { other.right() };
        let bottom: i64 = if self.bottom() <= other.bottom() {
            self.bottom()
        } else {
            other.bottom()
        };
        if right <= left || bottom <= top {
            return None;
        }
        Some(Rect { x: left, y: top, w: right - left, h: bottom - top })
    }
}

/// Two rectangles overlap exactly when some point belongs to both, and the
/// area that `intersect` returns for them then has positive width and height
/// and holds exactly the points that belong to both.
pub proof fn lemma_intersect_is_common_area(a: Rect, b: Rect)
    requires
        a.wf(),
        b.wf(),
    ensures
        a.overlaps(b) <==> exists|px: int, py: int| a.contains(px, py) && b.contains(px, py),
        a.overlaps(b) ==> a.overlap(b).w > 0 && a.overlap(b).h > 0,
        a.overlaps(b) ==> forall|px: int, py: int|
            a.overlap(b).contains(px, py) <==> a.contains(px, py) && b.contains(px, py),
{
    if a.overlaps(b) {
        assert(a.contains(a.shared_left(b), a.shared_top(b)) && b.contains(
            a.shared_left(b),
            a.shared_top(b),
        ));
    }
}

} // verus!

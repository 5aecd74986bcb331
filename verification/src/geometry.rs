//! Integer geometry in the compositor's logical coordinate space.

use vstd::prelude::*;

verus! {

/// A point in logical coordinates.
#[derive(Clone, Copy, Debug, PartialEq, Eq, Structural)]
pub struct Point {
    pub x: i32,
    pub y: i32,
}

/// A width and a height in logical coordinates.
#[derive(Clone, Copy, Debug, PartialEq, Eq, Structural)]
pub struct Size {
    pub w: i32,
    pub h: i32,
}

/// An axis-aligned rectangle: its top-left corner and its size.
#[derive(Clone, Copy, Debug, PartialEq, Eq, Structural)]
pub struct Rectangle {
    pub loc: Point,
    pub size: Size,
}

/// Whether a mathematical integer fits in an `i32`.
pub open spec fn fits(v: int) -> bool {
    i32::MIN <= v <= i32::MAX
}

/// Division rounding toward zero, as Rust's `/` does on signed integers (for `b > 0`).
pub open spec fn trunc_div(a: int, b: int) -> int {
    if a >= 0 {
        a / b
    } else {
        -((-a) / b)
    }
}

/// Rust's `v / 2` on a signed integer.
pub open spec fn half(v: int) -> int {
    trunc_div(v, 2)
}

/// `v.max(0)`.
pub open spec fn max0(v: int) -> int {
    if v < 0 {
        0
    } else {
        v
    }
}

/// The rectangle with the given corner and size (each value taken as an `i32`).
pub open spec fn rect(x: int, y: int, w: int, h: int) -> Rectangle {
    Rectangle { loc: Point { x: x as i32, y: y as i32 }, size: Size { w: w as i32, h: h as i32 } }
}

/// A rectangle covers no pixel when its width or its height is not positive.
pub open spec fn is_empty(r: Rectangle) -> bool {
    r.size.w <= 0 || r.size.h <= 0
}

/// Every pixel of `inner` lies inside `outer`.
pub open spec fn contains(outer: Rectangle, inner: Rectangle) -> bool {
    is_empty(inner) || {
        &&& outer.loc.x <= inner.loc.x
        &&& inner.loc.x + inner.size.w <= outer.loc.x + outer.size.w
        &&& outer.loc.y <= inner.loc.y
        &&& inner.loc.y + inner.size.h <= outer.loc.y + outer.size.h
    }
}

/// The two rectangles share at least one pixel.
pub open spec fn overlaps(a: Rectangle, b: Rectangle) -> bool {
    &&& !is_empty(a)
    &&& !is_empty(b)
    &&& a.loc.x < b.loc.x + b.size.w
    &&& b.loc.x < a.loc.x + a.size.w
    &&& a.loc.y < b.loc.y + b.size.h
    &&& b.loc.y < a.loc.y + a.size.h
}

impl Rectangle {
    /// The rectangle at `loc` with size `size`.
    pub fn new(loc: Point, size: Size) -> (r: Rectangle)
        ensures
            r.loc == loc,
            r.size == size,
    {
        Rectangle { loc, size }
    }
}

/// `v.max(0)` on an `i32`.
pub fn clamp_nonneg(v: i32) -> (r: i32)
    ensures
        r == max0(v as int),
{
    if v < 0 {
        0
    } else {
        v
    }
}

/// Two rectangles inside two rectangles that do not overlap do not overlap either.
pub proof fn lemma_contained_disjoint(a: Rectangle, b: Rectangle, r: Rectangle, s: Rectangle)
    requires
        contains(a, r),
        contains(b, s),
        !overlaps(a, b),
    ensures
        !overlaps(r, s),
{
}

/// Containment is transitive.
pub proof fn lemma_contains_trans(a: Rectangle, b: Rectangle, c: Rectangle)
    requires
        contains(a, b),
        contains(b, c),
    ensures
        contains(a, c),
{
}

} // verus!

//! Integer plane geometry: points and axis-aligned rectangles.
//!
//! All coordinates are `i64`.  The widening limits below keep every
//! arithmetic step of the library inside the `i64` range: event positions are
//! the smallest values, accumulated offsets may grow past them, and widget
//! rectangles may sit farther out still.

use vstd::prelude::*;

verus! {

/// Largest magnitude an event position coordinate may have.
pub const POS_LIMIT: i64 = 0x4000_0000;

/// Largest magnitude the accumulated coordinate offset may reach.
pub const OFF_LIMIT: i64 = 0x2000_0000_0000;

/// Largest magnitude a widget rectangle coordinate may have.
pub const GEOM_LIMIT: i64 = 0x4_0000_0000_0000;

/// A position on the plane.
#[derive(Clone, Copy, PartialEq, Eq, Structural, Debug)]
pub struct Point {
    pub x: i64,
    pub y: i64,
}

/// An axis-aligned rectangle given by its two corners:
/// `(x0, y0)` is the top-left corner, `(x1, y1)` the bottom-right one.
/// A point is inside when `x0 <= x < x1` and `y0 <= y < y1`.
#[derive(Clone, Copy, PartialEq, Eq, Structural, Debug)]
pub struct Rect {
    pub x0: i64,
    pub y0: i64,
    pub x1: i64,
    pub y1: i64,
}

impl Point {
    /// Both coordinates lie within `lim` of the origin.
    pub open spec fn bounded(self, lim: int) -> bool {
        -lim <= self.x <= lim && -lim <= self.y <= lim
    }
}

impl Rect {
    /// All four coordinates lie within `lim` of the origin.
    pub open spec fn bounded(self, lim: int) -> bool {
        -lim <= self.x0 <= lim && -lim <= self.y0 <= lim && -lim <= self.x1 <= lim && -lim
            <= self.y1 <= lim
    }

    /// What `contains` decides.
    pub open spec fn spec_contains(self, p: Point) -> bool {
        self.x0 <= p.x < self.x1 && self.y0 <= p.y < self.y1
    }

    /// Whether the point lies inside the rectangle.
    pub fn contains(&self, p: Point) -> (r: bool)
        ensures
            r == self.spec_contains(p),
    {
        self.x0 <= p.x && p.x < self.x1 && self.y0 <= p.y && p.y < self.y1
    }

    /// The rectangle shifted by `(dx, dy)`, at the specification level.
    /// The casts are exact whenever the shifted coordinates fit in `i64`.
    pub open spec fn spec_translate(self, dx: int, dy: int) -> Rect {
        Rect {
            x0: (self.x0 + dx) as i64,
            y0: (self.y0 + dy) as i64,
            x1: (self.x1 + dx) as i64,
            y1: (self.y1 + dy) as i64,
        }
    }

    /// The rectangle shifted by `(dx, dy)`.
    pub fn translate(&self, dx: i64, dy: i64) -> (r: Rect)
        requires
            i64::MIN <= self.x0 + dx <= i64::MAX,
            i64::MIN <= self.y0 + dy <= i64::MAX,
            i64::MIN <= self.x1 + dx <= i64::MAX,
            i64::MIN <= self.y1 + dy <= i64::MAX,
        ensures
            r == self.spec_translate(dx as int, dy as int),
            r.x0 == self.x0 + dx,
            r.y0 == self.y0 + dy,
            r.x1 == self.x1 + dx,
            r.y1 == self.y1 + dy,
    {
        Rect { x0: self.x0 + dx, y0: self.y0 + dy, x1: self.x1 + dx, y1: self.y1 + dy }
    }

    /// Builds a rectangle from its top-left corner and its extent.
    pub fn xywh(x: i64, y: i64, w: i64, h: i64) -> (r: Rect)
        requires
            i64::MIN <= x + w <= i64::MAX,
            i64::MIN <= y + h <= i64::MAX,
        ensures
            r.x0 == x,
            r.y0 == y,
            r.x1 == x + w,
            r.y1 == y + h,
    {
        Rect { x0: x, y0: y, x1: x + w, y1: y + h }
    }

    /// Horizontal extent.
    pub fn width(&self) -> (r: i64)
        requires
            i64::MIN <= self.x1 - self.x0 <= i64::MAX,
        ensures
            r == self.x1 - self.x0,
    {
        self.x1 - self.x0
    }

    /// Vertical extent.
    pub fn height(&self) -> (r: i64)
        requires
            i64::MIN <= self.y1 - self.y0 <= i64::MAX,
        ensures
            r == self.y1 - self.y0,
    {
        self.y1 - self.y0
    }

}

/// `x` forced into the interval `[lo, hi]`.
pub open spec fn spec_clamp(lo: int, x: int, hi: int) -> int {
    if x < lo {
        lo
    } else if x > hi {
        hi
    } else {
        x
    }
}

/// Forces `x` into the interval `[lo, hi]`.
pub fn clamp(lo: i64, x: i64, hi: i64) -> (r: i64)
    requires
        lo <= hi,
    ensures
        r == spec_clamp(lo as int, x as int, hi as int),
        lo <= r <= hi,
{
    if x < lo {
        lo
    } else if x > hi {
        hi
    } else {
        x
    }
}

} // verus!

//! Axis-aligned room rectangles: center point and the overlap test used to
//! decide whether a candidate room may be placed.

use vstd::prelude::*;

verus! {

/// A room's bounds. `x1 <= x2` and `y1 <= y2`; the carved interior is the
/// open range `(x1+1 .. x2, y1+1 .. y2)`.
#[derive(Clone, Copy, Debug, PartialEq, Eq, Structural)]
pub struct Rect {
    pub x1: i32,
    pub y1: i32,
    pub x2: i32,
    pub y2: i32,
}

/// The overlap test is inclusive: rooms that share only a boundary edge
/// still count as overlapping.
pub open spec fn rects_overlap(a: Rect, b: Rect) -> bool {
    a.x2 >= b.x1 && a.x1 <= b.x2 && a.y2 >= b.y1 && a.y1 <= b.y2
}

/// The point `(x, y)` lies in the carved interior of `r` (strictly inside
/// its bounds).
pub open spec fn in_interior(r: Rect, x: int, y: int) -> bool {
    r.x1 + 1 <= x < r.x2 && r.y1 + 1 <= y < r.y2
}

/// The midpoint of `r`, rounded toward negative infinity.
pub open spec fn spec_center(r: Rect) -> (int, int) {
    ((r.x1 + r.x2) / 2, (r.y1 + r.y2) / 2)
}

impl Rect {
    pub fn new(x: i32, y: i32, w: i32, h: i32) -> (r: Rect)
        requires
            x + w <= i32::MAX,
            y + h <= i32::MAX,
            w >= 0,
            h >= 0,
        ensures
            r == (Rect { x1: x, y1: y, x2: (x + w) as i32, y2: (y + h) as i32 }),
    {
        Rect { x1: x, y1: y, x2: x + w, y2: y + h }
    }

    pub fn center(&self) -> (c: (i32, i32))
        requires
            self.x1 <= self.x2,
            self.y1 <= self.y2,
            0 <= self.x1,
            0 <= self.y1,
            self.x1 + self.x2 <= i32::MAX,
            self.y1 + self.y2 <= i32::MAX,
        ensures
            (c.0 as int, c.1 as int) == spec_center(*self),
    {
        ((self.x1 + self.x2) / 2, (self.y1 + self.y2) / 2)
    }

    pub fn intersects_with(&self, other: &Rect) -> (r: bool)
        ensures
            r == rects_overlap(*self, *other),
    {
        let x_intersects: bool = self.x2 >= other.x1 && self.x1 <= other.x2;
        let y_intersects: bool = self.y2 >= other.y1 && self.y1 <= other.y2;
        x_intersects && y_intersects
    }
}

/// Two non-overlapping rooms have disjoint interiors; in fact a point inside
/// one room's bounds cannot lie inside the other's.
pub proof fn lemma_disjoint_interiors(a: Rect, b: Rect, x: int, y: int)
    requires
        !rects_overlap(a, b),
        in_interior(a, x, y),
    ensures
        !in_interior(b, x, y),
{
}

} // verus!

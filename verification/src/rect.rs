//! Axis-aligned room footprints.

use vstd::prelude::*;

verus! {

/// Half of `n`, rounded toward zero.
pub open spec fn half_toward_zero(n: int) -> int {
    if n >= 0 {
        n / 2
    } else {
        -((-n) / 2)
    }
}

/// A rectangle on the map, used to lay out a room. The corner `(x1, y1)` and
/// the corner `(x2, y2)` are the room's bounding edge; its floor is strictly
/// between them.
#[derive(Clone, Copy, Debug, PartialEq, Eq, Structural)]
pub struct Rect {
    pub x1: i32,
    pub y1: i32,
    pub x2: i32,
    pub y2: i32,
}

impl Rect {
    /// The two rectangles touch or overlap, edges included.
    pub open spec fn intersects(self, other: Rect) -> bool {
        self.x1 <= other.x2 && self.x2 >= other.x1 && self.y1 <= other.y2 && self.y2 >= other.y1
    }

    /// The cell `(x, y)` lies strictly inside the bounding edge.
    pub open spec fn interior_contains(self, x: int, y: int) -> bool {
        self.x1 < x < self.x2 && self.y1 < y < self.y2
    }

    /// The interior holds at least one cell.
    pub open spec fn has_interior(self) -> bool {
        self.x1 + 1 < self.x2 && self.y1 + 1 < self.y2
    }

    /// The mathematical center, each coordinate rounded toward zero.
    pub open spec fn center_point(self) -> (int, int) {
        (half_toward_zero(self.x1 + self.x2), half_toward_zero(self.y1 + self.y2))
    }

    /// The rectangle with top-left corner `(x, y)`, `w` wide and `h` high.
    pub fn new(x: i32, y: i32, w: i32, h: i32) -> (r: Rect)
        requires
            i32::MIN <= x + w <= i32::MAX,
            i32::MIN <= y + h <= i32::MAX,
        ensures
            r == (Rect { x1: x, y1: y, x2: (x + w) as i32, y2: (y + h) as i32 }),
    {
        Rect { x1: x, y1: y, x2: x + w, y2: y + h }
    }

    /// The cell at the middle of the rectangle.
    pub fn center(&self) -> (c: (i32, i32))
        ensures
            (c.0 as int, c.1 as int) == self.center_point(),
    {
        let center_x: i64 = (self.x1 as i64 + self.x2 as i64) / 2;
        let center_y: i64 = (self.y1 as i64 + self.y2 as i64) / 2;
        (center_x as i32, center_y as i32)
    }

    /// Whether this rectangle intersects with another one.
    pub fn intersects_with(&self, other: &Rect) -> (b: bool)
        ensures
            b == self.intersects(*other),
    {
        (self.x1 <= other.x2) && (self.x2 >= other.x1) && (self.y1 <= other.y2) && (self.y2
            >= other.y1)
    }
}

/// Overlap is symmetric: the order of the two rooms does not matter.
pub proof fn lemma_intersects_symmetric(a: Rect, b: Rect)
    ensures
        a.intersects(b) == b.intersects(a),
{
}

/// A rectangle at least two cells wide and high holds its own center strictly
/// inside its bounding edge.
pub proof fn lemma_center_in_interior(r: Rect)
    requires
        r.x1 + 2 <= r.x2,
        r.y1 + 2 <= r.y2,
    ensures
        r.interior_contains(r.center_point().0, r.center_point().1),
{
}

} // verus!

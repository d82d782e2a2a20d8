//! Points and rectangles in virtual-desktop coordinates.

use vstd::prelude::*;

verus! {

/// A point in virtual-desktop coordinates.
#[derive(Clone, Copy, Debug, PartialEq, Eq, Structural)]
pub struct Point {
    pub x: i64,
    pub y: i64,
}

/// A point in the pixels of one window, counted from the window's corner.
#[derive(Clone, Copy, Debug, PartialEq, Eq, Structural)]
pub struct WindowPoint {
    pub x: i32,
    pub y: i32,
}

/// A rectangle given by its two corners. It is normalized when
/// `min_x <= max_x` and `min_y <= max_y`.
#[derive(Clone, Copy, Debug, PartialEq, Eq, Structural)]
pub struct Rect {
    pub min_x: i64,
    pub min_y: i64,
    pub max_x: i64,
    pub max_y: i64,
}

pub open spec fn spec_min(a: int, b: int) -> int {
    if a <= b {
        a
    } else {
        b
    }
}

pub open spec fn spec_max(a: int, b: int) -> int {
    if a >= b {
        a
    } else {
        b
    }
}

/// The normalized rectangle whose opposite corners are `a` and `b`.
pub open spec fn normalized(a: Point, b: Point) -> Rect {
    Rect {
        min_x: spec_min(a.x as int, b.x as int) as i64,
        min_y: spec_min(a.y as int, b.y as int) as i64,
        max_x: spec_max(a.x as int, b.x as int) as i64,
        max_y: spec_max(a.y as int, b.y as int) as i64,
    }
}

impl Rect {
    pub open spec fn width(self) -> int {
        self.max_x - self.min_x
    }

    pub open spec fn height(self) -> int {
        self.max_y - self.min_y
    }

    pub open spec fn is_normalized(self) -> bool {
        self.min_x <= self.max_x && self.min_y <= self.max_y
    }

    /// Whether `other` lies inside this rectangle, borders included.
    pub open spec fn covers(self, other: Rect) -> bool {
        &&& self.min_x <= other.min_x
        &&& self.min_y <= other.min_y
        &&& other.max_x <= self.max_x
        &&& other.max_y <= self.max_y
    }

    /// What two rectangles have in common. Where they have nothing in
    /// common the result is negative.
    pub open spec fn common(self, other: Rect) -> Rect {
        Rect {
            min_x: spec_max(self.min_x as int, other.min_x as int) as i64,
            min_y: spec_max(self.min_y as int, other.min_y as int) as i64,
            max_x: spec_min(self.max_x as int, other.max_x as int) as i64,
            max_y: spec_min(self.max_y as int, other.max_y as int) as i64,
        }
    }

    /// A rectangle that ends before it begins, in either axis.
    pub open spec fn negative(self) -> bool {
        self.max_x < self.min_x || self.max_y < self.min_y
    }

    /// Whether the pixel at (`x`, `y`) lies in the rectangle. A rectangle
    /// holds the pixels from its first corner up to, and without, its
    /// second.
    pub open spec fn holds(self, x: int, y: int) -> bool {
        self.min_x <= x < self.max_x && self.min_y <= y < self.max_y
    }

    pub fn intersect(&self, other: &Rect) -> (r: Rect)
        ensures
            r == self.common(*other),
    {
        Rect {
            min_x: if self.min_x >= other.min_x { self.min_x } else { other.min_x },
            min_y: if self.min_y >= other.min_y { self.min_y } else { other.min_y },
            max_x: if self.max_x <= other.max_x { self.max_x } else { other.max_x },
            max_y: if self.max_y <= other.max_y { self.max_y } else { other.max_y },
        }
    }

    pub fn is_negative(&self) -> (b: bool)
        ensures
            b == self.negative(),
    {
        self.max_x < self.min_x || self.max_y < self.min_y
    }

    /// The rectangle as the four numbers `min_x`, `min_y`, `max_x`,
    /// `max_y`.
    pub fn to_array(&self) -> (a: [i64; 4])
        ensures
            a[0] == self.min_x,
            a[1] == self.min_y,
            a[2] == self.max_x,
            a[3] == self.max_y,
    {
        [self.min_x, self.min_y, self.max_x, self.max_y]
    }

    /// The rectangle that the four numbers `min_x`, `min_y`, `max_x`,
    /// `max_y` give.
    pub fn from_array(a: [i64; 4]) -> (r: Rect)
        ensures
            r == (Rect { min_x: a[0], min_y: a[1], max_x: a[2], max_y: a[3] }),
    {
        Rect { min_x: a[0], min_y: a[1], max_x: a[2], max_y: a[3] }
    }

    /// The zero-size rectangle at `p`.
    pub fn at(p: Point) -> (r: Rect)
        ensures
            r == (Rect { min_x: p.x, min_y: p.y, max_x: p.x, max_y: p.y }),
    {
        Rect { min_x: p.x, min_y: p.y, max_x: p.x, max_y: p.y }
    }

    /// The normalized rectangle spanned by two corners, in any order.
    pub fn from_corners(a: Point, b: Point) -> (r: Rect)
        ensures
            r == normalized(a, b),
            r.is_normalized(),
    {
        let min_x: i64 = if a.x <= b.x { a.x } else { b.x };
        let max_x: i64 = if a.x >= b.x { a.x } else { b.x };
        let min_y: i64 = if a.y <= b.y { a.y } else { b.y };
        let max_y: i64 = if a.y >= b.y { a.y } else { b.y };
        Rect { min_x, min_y, max_x, max_y }
    }

    /// Whether both sides are at least `threshold` long.
    pub fn at_least(&self, threshold: i64) -> (b: bool)
        ensures
            b == (self.width() >= threshold && self.height() >= threshold),
    {
        let w: i128 = self.max_x as i128 - self.min_x as i128;
        let h: i128 = self.max_y as i128 - self.min_y as i128;
        w >= threshold as i128 && h >= threshold as i128
    }
}

} // verus!

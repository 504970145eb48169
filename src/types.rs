//! Plain geometric types.
use vstd::prelude::*;

verus! {

/// A width and a height.
#[derive(Clone, Copy, Debug, PartialEq, Eq, Structural)]
pub struct Dimension {
    pub width: i32,
    pub height: i32,
}

/// An axis-aligned rectangle given by two corners.
#[derive(Clone, Copy, Debug, PartialEq, Eq, Structural)]
pub struct Rect {
    pub x1: i32,
    pub y1: i32,
    pub x2: i32,
    pub y2: i32,
}

/// `a / 2` rounded toward zero, as integer division in Rust does.
pub open spec fn half_toward_zero(a: int) -> int {
    if a >= 0 {
        a / 2
    } else {
        -((-a) / 2)
    }
}

impl Rect {
    /// The rectangle with corner `(x, y)` and the given size.
    pub fn new(x: i32, y: i32, width: i32, height: i32) -> (r: Self)
        requires
            i32::MIN <= x + width <= i32::MAX,
            i32::MIN <= y + height <= i32::MAX,
        ensures
            r.x1 == x,
            r.y1 == y,
            r.x2 == x + width,
            r.y2 == y + height,
    {
        Self { x1: x, y1: y, x2: x + width, y2: y + height }
    }

    /// The midpoint, each coordinate rounded toward zero.
    pub fn center(&self) -> (r: (i32, i32))
        ensures
            r.0 as int == half_toward_zero(self.x1 + self.x2),
            r.1 as int == half_toward_zero(self.y1 + self.y2),
    {
        (Self::half(self.x1 as i64 + self.x2 as i64), Self::half(self.y1 as i64 + self.y2 as i64))
    }

    fn half(a: i64) -> (r: i32)
        requires
            2 * i32::MIN <= a <= 2 * i32::MAX,
        ensures
            r as int == half_toward_zero(a as int),
    {
        if a >= 0 {
            (a / 2) as i32
        } else {
            let b: i64 = -a;
            (-(b / 2)) as i32
        }
    }

    /// Whether the two rectangles overlap or touch.
    pub fn intersect(&self, other: &Rect) -> (r: bool)
        ensures
            r == (self.x1 <= other.x2 && self.x2 >= other.x1 && self.y1 <= other.y2 && self.y2 >= other.y1),
    {
        self.x1 <= other.x2 && self.x2 >= other.x1 && self.y1 <= other.y2 && self.y2 >= other.y1
    }
}

} // verus!

//! Screen geometry: rectangles of terminal cells.

use vstd::prelude::*;

verus! {

/// A rectangle of terminal cells.
#[derive(Clone, Copy, PartialEq, Eq, Structural, Debug, Default)]
pub struct Rect {
    pub x: u16,
    pub y: u16,
    pub width: u16,
    pub height: u16,
}

/// The larger of two numbers.
pub open spec fn max(a: int, b: int) -> int {
    if a >= b { a } else { b }
}

/// The smaller of two numbers.
pub open spec fn min(a: int, b: int) -> int {
    if a <= b { a } else { b }
}

/// `a - b`, but no less than nothing.
pub open spec fn monus(a: int, b: int) -> int {
    if a >= b { a - b } else { 0 }
}

/// `a` moved into `lo..=hi`.
pub open spec fn clamp(a: int, lo: int, hi: int) -> int {
    if a < lo { lo } else if a > hi { hi } else { a }
}

/// The smaller of two coordinates.
pub fn min16(a: u16, b: u16) -> (r: u16)
    ensures
        r == min(a as int, b as int),
{
    if a <= b { a } else { b }
}

/// The larger of two coordinates.
pub fn max16(a: u16, b: u16) -> (r: u16)
    ensures
        r == max(a as int, b as int),
{
    if a >= b { a } else { b }
}

/// `a - b`, but no less than nothing.
pub fn monus16(a: u16, b: u16) -> (r: u16)
    ensures
        r == monus(a as int, b as int),
{
    if a >= b { a - b } else { 0 }
}

impl Rect {
    /// Whether the rectangle ends within the coordinates.
    pub open spec fn fits(self) -> bool {
        self.x + self.width <= u16::MAX && self.y + self.height <= u16::MAX
    }

    /// The first column right of the rectangle.
    pub open spec fn right_end(self) -> int {
        min(self.x + self.width, u16::MAX as int)
    }

    /// The first row below the rectangle.
    pub open spec fn bottom_end(self) -> int {
        min(self.y + self.height, u16::MAX as int)
    }

    /// Whether `self` lies within `outer`.
    pub open spec fn within(self, outer: Rect) -> bool {
        &&& outer.x <= self.x
        &&& outer.y <= self.y
        &&& self.x + self.width <= outer.x + outer.width
        &&& self.y + self.height <= outer.y + outer.height
    }

    /// A rectangle, its extents cut at the end of the coordinates.
    pub fn new(x: u16, y: u16, width: u16, height: u16) -> (r: Rect)
        ensures
            r.x == x && r.y == y,
            r.width == min(width as int, u16::MAX - x),
            r.height == min(height as int, u16::MAX - y),
            r.fits(),
    {
        Rect { x, y, width: min16(width, 65535 - x), height: min16(height, 65535 - y) }
    }

    /// The first column right of the rectangle.
    pub fn right(&self) -> (r: u16)
        ensures
            r == self.right_end(),
    {
        self.x.saturating_add(self.width)
    }

    /// The first row below the rectangle.
    pub fn bottom(&self) -> (r: u16)
        ensures
            r == self.bottom_end(),
    {
        self.y.saturating_add(self.height)
    }
}

} // verus!

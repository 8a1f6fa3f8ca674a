//! Cell rectangles of the terminal viewport.

use vstd::prelude::*;

verus! {

/// An area of terminal cells: its top left corner and its extent.
#[derive(Debug, Clone, Copy, PartialEq, Eq, Structural)]
pub struct Rect {
    pub x: u16,
    pub y: u16,
    pub width: u16,
    pub height: u16,
}

/// `a + b`, held at the largest coordinate.
pub open spec fn sat_add(a: u16, b: u16) -> u16 {
    if a + b > u16::MAX {
        u16::MAX
    } else {
        (a + b) as u16
    }
}

/// `a - b`, held at zero.
pub open spec fn sat_sub(a: u16, b: u16) -> u16 {
    if a < b {
        0
    } else {
        (a - b) as u16
    }
}

pub open spec fn min_u16(a: u16, b: u16) -> u16 {
    if a <= b {
        a
    } else {
        b
    }
}

pub open spec fn max_u16(a: u16, b: u16) -> u16 {
    if a >= b {
        a
    } else {
        b
    }
}

/// `value` moved to the nearest bound of `low..=high`.
pub open spec fn clamp_u16(value: u16, low: u16, high: u16) -> u16
    recommends
        low <= high,
{
    if value < low {
        low
    } else if value > high {
        high
    } else {
        value
    }
}

/// `value` moved to the nearest bound of `low..=high`.
pub fn clamp(value: u16, low: u16, high: u16) -> (result: u16)
    requires
        low <= high,
    ensures
        result == clamp_u16(value, low, high),
{
    if value < low {
        low
    } else if value > high {
        high
    } else {
        value
    }
}

pub fn smaller(a: u16, b: u16) -> (result: u16)
    ensures
        result == min_u16(a, b),
{
    if a <= b {
        a
    } else {
        b
    }
}

pub fn larger(a: u16, b: u16) -> (result: u16)
    ensures
        result == max_u16(a, b),
{
    if a >= b {
        a
    } else {
        b
    }
}

impl Rect {
    /// The rectangle at `(x, y)` whose extent stops at the coordinate limit.
    pub open spec fn spec_new(x: u16, y: u16, width: u16, height: u16) -> Rect {
        Rect {
            x,
            y,
            width: (sat_add(x, width) - x) as u16,
            height: (sat_add(y, height) - y) as u16,
        }
    }

    /// The rectangle of no cells at the origin.
    pub open spec fn spec_empty() -> Rect {
        Rect { x: 0, y: 0, width: 0, height: 0 }
    }

    pub open spec fn spec_right(self) -> u16 {
        sat_add(self.x, self.width)
    }

    pub open spec fn spec_bottom(self) -> u16 {
        sat_add(self.y, self.height)
    }

    /// Whether the cell at `(column, row)` lies in the rectangle.
    pub open spec fn has_cell(self, column: int, row: int) -> bool {
        &&& self.x <= column < self.x + self.width
        &&& self.y <= row < self.y + self.height
    }

    /// Whether no coordinate of a cell exceeds the coordinate limit.
    pub open spec fn fits(self) -> bool {
        &&& self.x + self.width <= u16::MAX
        &&& self.y + self.height <= u16::MAX
    }

    /// Whether every cell of `inner` is a cell of `self`.
    pub open spec fn encloses(self, inner: Rect) -> bool {
        forall|column: int, row: int|
            inner.has_cell(column, row) ==> #[trigger] self.has_cell(column, row)
    }

    /// Whether `self` and `other` share no cell.
    pub open spec fn disjoint(self, other: Rect) -> bool {
        forall|column: int, row: int|
            !(self.has_cell(column, row) && #[trigger] other.has_cell(column, row))
    }

    pub fn new(x: u16, y: u16, width: u16, height: u16) -> (rect: Rect)
        ensures
            rect == Rect::spec_new(x, y, width, height),
            rect.fits(),
    {
        let right: u16 = x.saturating_add(width);
        let bottom: u16 = y.saturating_add(height);
        Rect { x, y, width: right - x, height: bottom - y }
    }

    /// The first column to the right of the rectangle.
    pub fn right(self) -> (right: u16)
        ensures
            right == self.spec_right(),
    {
        self.x.saturating_add(self.width)
    }

    /// The first row below the rectangle.
    pub fn bottom(self) -> (bottom: u16)
        ensures
            bottom == self.spec_bottom(),
    {
        self.y.saturating_add(self.height)
    }
}

impl Default for Rect {
    fn default() -> (rect: Rect)
        ensures
            rect == Rect::spec_empty(),
    {
        Rect { x: 0, y: 0, width: 0, height: 0 }
    }
}

} // verus!

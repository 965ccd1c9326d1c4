//! Cells and rectangles of the screen.

use vstd::prelude::*;

verus! {

pub open spec fn spec_min(a: int, b: int) -> int {
    if a <= b {
        a
    } else {
        b
    }
}

pub open spec fn spec_max(a: int, b: int) -> int {
    if a >= b {
        a
    } else {
        b
    }
}

/// `a - b`, or zero where that is negative.
pub open spec fn monus(a: int, b: int) -> int {
    if a >= b {
        a - b
    } else {
        0
    }
}

/// `a + b`, or the largest `u16` where that is larger.
pub open spec fn plus16(a: int, b: int) -> int {
    spec_min(a + b, 65535)
}

pub fn min16(a: u16, b: u16) -> (r: u16)
    ensures
        r == spec_min(a as int, b as int),
{
    if a <= b {
        a
    } else {
        b
    }
}

pub fn max16(a: u16, b: u16) -> (r: u16)
    ensures
        r == spec_max(a as int, b as int),
{
    if a >= b {
        a
    } else {
        b
    }
}

/// `n` as a `u16`, or the largest `u16` where it is larger.
pub fn clamp16(n: usize) -> (r: u16)
    ensures
        r == spec_min(n as int, 65535),
{
    if n <= 65535 {
        n as u16
    } else {
        65535
    }
}

/// A cell of the screen.
#[derive(Debug, Clone, Copy, PartialEq, Eq, Structural)]
pub struct Position {
    pub x: u16,
    pub y: u16,
}

/// A rectangle of cells, from its top left corner.
#[derive(Debug, Clone, Copy, PartialEq, Eq, Structural)]
pub struct Rect {
    pub x: u16,
    pub y: u16,
    pub width: u16,
    pub height: u16,
}

impl Rect {
    /// The empty rectangle in the corner.
    #[verifier::allow_in_spec]
    pub fn zero() -> Rect
        returns
            (Rect { x: 0, y: 0, width: 0, height: 0 }),
    {
        Rect { x: 0, y: 0, width: 0, height: 0 }
    }

    /// The rectangle, cut off where it would leave the range of coordinates.
    pub open spec fn at(x: int, y: int, width: int, height: int) -> Rect {
        Rect {
            x: x as u16,
            y: y as u16,
            width: spec_min(width, 65535 - x) as u16,
            height: spec_min(height, 65535 - y) as u16,
        }
    }

    pub fn new(x: u16, y: u16, width: u16, height: u16) -> (r: Rect)
        ensures
            r == Rect::at(x as int, y as int, width as int, height as int),
    {
        Rect { x, y, width: min16(width, 65535 - x), height: min16(height, 65535 - y) }
    }

    /// The column after the last one.
    pub open spec fn end_x(self) -> int {
        plus16(self.x as int, self.width as int)
    }

    /// The row after the last one.
    pub open spec fn end_y(self) -> int {
        plus16(self.y as int, self.height as int)
    }

    pub open spec fn has(self, x: int, y: int) -> bool {
        self.x <= x < self.end_x() && self.y <= y < self.end_y()
    }

    /// Every cell of `self` lies in `outer`.
    pub open spec fn within(self, outer: Rect) -> bool {
        forall|x: int, y: int| #[trigger] self.has(x, y) ==> outer.has(x, y)
    }

    pub fn right(self) -> (r: u16)
        ensures
            r == self.end_x(),
    {
        self.x.saturating_add(self.width)
    }

    pub fn bottom(self) -> (r: u16)
        ensures
            r == self.end_y(),
    {
        self.y.saturating_add(self.height)
    }

    pub fn contains(self, x: u16, y: u16) -> (r: bool)
        ensures
            r == self.has(x as int, y as int),
    {
        self.x <= x && x < self.right() && self.y <= y && y < self.bottom()
    }

    pub fn is_empty(self) -> (r: bool)
        ensures
            r == (self.width == 0 || self.height == 0),
    {
        self.width == 0 || self.height == 0
    }

    /// What is left of the rectangle inside of a border of one cell.
    pub open spec fn inside(self) -> Rect {
        Rect {
            x: spec_min(plus16(self.x as int, 1), self.end_x()) as u16,
            y: spec_min(plus16(self.y as int, 1), self.end_y()) as u16,
            width: monus(self.width as int, 2) as u16,
            height: monus(self.height as int, 2) as u16,
        }
    }

    pub fn inner(self) -> (r: Rect)
        ensures
            r == self.inside(),
    {
        Rect {
            x: min16(self.x.saturating_add(1), self.right()),
            y: min16(self.y.saturating_add(1), self.bottom()),
            width: self.width.saturating_sub(2),
            height: self.height.saturating_sub(2),
        }
    }

    /// The rectangle ends in the range of coordinates.
    pub open spec fn in_range(self) -> bool {
        self.x + self.width <= 65535 && self.y + self.height <= 65535
    }
}

/// The inside of a rectangle is part of it.
pub proof fn lemma_inside_within(area: Rect)
    requires
        area.in_range(),
    ensures
        area.inside().in_range(),
        area.inside().within(area),
{
}

/// A rectangle holds the cells from its corner on, as many as it is wide and high.
pub proof fn lemma_which_cells_a_rectangle_holds(area: Rect, x: int, y: int)
    requires
        area.in_range(),
    ensures
        area.has(x, y) <==> area.x <= x < area.x + area.width && area.y <= y < area.y
            + area.height,
        area.end_x() == area.x + area.width,
        area.end_y() == area.y + area.height,
{
}

/// Inside of its border a rectangle holds the cells that have another one of it on every
/// side.
pub proof fn lemma_what_is_inside_the_border(area: Rect, x: int, y: int)
    requires
        area.in_range(),
    ensures
        area.inside().has(x, y) <==> area.has(x - 1, y) && area.has(x + 1, y) && area.has(x, y - 1)
            && area.has(x, y + 1),
{
}

/// A rectangle that stays in the range of coordinates is what it was asked to be.
pub proof fn lemma_a_rectangle_is_as_asked(x: int, y: int, width: int, height: int)
    requires
        0 <= x,
        0 <= y,
        0 <= width,
        0 <= height,
        x + width <= 65535,
        y + height <= 65535,
    ensures
        Rect::at(x, y, width, height).x == x,
        Rect::at(x, y, width, height).y == y,
        Rect::at(x, y, width, height).width == width,
        Rect::at(x, y, width, height).height == height,
        Rect::at(x, y, width, height).in_range(),
{
}

/// Sums and differences stop at the ends of the range.
pub proof fn lemma_coordinates_stop_at_the_ends(a: int, b: int)
    requires
        0 <= a <= 65535,
        0 <= b <= 65535,
    ensures
        a + b <= 65535 ==> plus16(a, b) == a + b,
        a + b > 65535 ==> plus16(a, b) == 65535,
        b <= a ==> monus(a, b) + b == a,
        b > a ==> monus(a, b) == 0,
        spec_min(a, b) <= a && spec_min(a, b) <= b && (spec_min(a, b) == a || spec_min(a, b) == b),
        spec_max(a, b) >= a && spec_max(a, b) >= b && (spec_max(a, b) == a || spec_max(a, b) == b),
{
}

} // verus!

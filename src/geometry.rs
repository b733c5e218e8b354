//! Cell coordinates and extents on the character grid, and the hit test.
use vstd::prelude::*;

verus! {

/// An absolute cell position: column `x`, row `y`.
#[derive(Debug, Clone, Copy, PartialEq, Eq, Structural)]
pub struct NPosition {
    pub x: u16,
    pub y: u16,
}

/// An offset from the place that a widget's parent assigns to it.
#[derive(Debug, Clone, Copy, PartialEq, Eq, Structural)]
pub struct NLocalPosition {
    pub x: u16,
    pub y: u16,
}

/// A widget's extent in cells: `x` columns wide, `y` rows high.
#[derive(Debug, Clone, Copy, PartialEq, Eq, Structural)]
pub struct NSize {
    pub x: u16,
    pub y: u16,
}

/// The dimensions of the terminal surface.
#[derive(Debug, Clone, Copy, PartialEq, Eq, Structural)]
pub struct WindowSize {
    pub width: u16,
    pub height: u16,
}

impl NPosition {
    pub fn new(x: u16, y: u16) -> (r: NPosition)
        ensures
            r.x == x,
            r.y == y,
    {
        NPosition { x, y }
    }
}

impl NLocalPosition {
    pub fn new(x: u16, y: u16) -> (r: NLocalPosition)
        ensures
            r.x == x,
            r.y == y,
    {
        NLocalPosition { x, y }
    }
}

impl NSize {
    pub fn new(x: u16, y: u16) -> (r: NSize)
        ensures
            r.x == x,
            r.y == y,
    {
        NSize { x, y }
    }
}

impl Default for NPosition {
    /// The origin.
    fn default() -> (r: NPosition)
        ensures
            r.x == 0 && r.y == 0,
    {
        NPosition { x: 0, y: 0 }
    }
}

impl Default for NLocalPosition {
    /// No offset.
    fn default() -> (r: NLocalPosition)
        ensures
            r.x == 0 && r.y == 0,
    {
        NLocalPosition { x: 0, y: 0 }
    }
}

impl Default for NSize {
    /// The empty extent.
    fn default() -> (r: NSize)
        ensures
            r.x == 0 && r.y == 0,
    {
        NSize { x: 0, y: 0 }
    }
}

impl From<(u16, u16)> for NPosition {
    /// The pair as `(x, y)`.
    fn from(p: (u16, u16)) -> NPosition {
        NPosition { x: p.0, y: p.1 }
    }
}

impl vstd::std_specs::convert::FromSpecImpl<(u16, u16)> for NPosition {
    open spec fn obeys_from_spec() -> bool {
        true
    }

    open spec fn from_spec(p: (u16, u16)) -> NPosition {
        NPosition { x: p.0, y: p.1 }
    }
}

impl From<(u16, u16)> for NLocalPosition {
    /// The pair as `(x, y)`.
    fn from(p: (u16, u16)) -> NLocalPosition {
        NLocalPosition { x: p.0, y: p.1 }
    }
}

impl vstd::std_specs::convert::FromSpecImpl<(u16, u16)> for NLocalPosition {
    open spec fn obeys_from_spec() -> bool {
        true
    }

    open spec fn from_spec(p: (u16, u16)) -> NLocalPosition {
        NLocalPosition { x: p.0, y: p.1 }
    }
}

impl From<(u16, u16)> for NSize {
    /// The pair as `(x, y)`.
    fn from(p: (u16, u16)) -> NSize {
        NSize { x: p.0, y: p.1 }
    }
}

impl vstd::std_specs::convert::FromSpecImpl<(u16, u16)> for NSize {
    open spec fn obeys_from_spec() -> bool {
        true
    }

    open spec fn from_spec(p: (u16, u16)) -> NSize {
        NSize { x: p.0, y: p.1 }
    }
}

/// Whether cell `(x, y)` lies in the half-open rectangle that starts at `pos`
/// and spans `size`.
pub open spec fn contains(pos: NPosition, size: NSize, x: int, y: int) -> bool {
    &&& pos.x <= x < pos.x + size.x
    &&& pos.y <= y < pos.y + size.y
}

/// Whether the pointer at `mouse_pos` (column, row) is over the rectangle of
/// `pos` and `size`; the right and bottom edges are excluded.
pub fn check_bounds(mouse_pos: (i32, i32), pos: &NPosition, size: &NSize) -> (r: bool)
    ensures
        r == contains(*pos, *size, mouse_pos.0 as int, mouse_pos.1 as int),
{
    let left = pos.x as i32;
    let top = pos.y as i32;
    let right = left + size.x as i32;
    let bottom = top + size.y as i32;
    mouse_pos.0 >= left && mouse_pos.0 < right && mouse_pos.1 >= top && mouse_pos.1 < bottom
}

/// The cell just past the right edge on the top row is never inside a
/// rectangle; its top-left cell is inside whenever the rectangle is not empty.
pub proof fn lemma_hit_boundary(pos: NPosition, size: NSize)
    ensures
        !contains(pos, size, pos.x + size.x, pos.y as int),
        (size.x > 0 && size.y > 0) ==> contains(pos, size, pos.x as int, pos.y as int),
{
}

} // verus!

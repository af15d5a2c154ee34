//! Rectangles of the screen.

use vstd::prelude::*;

verus! {

/// A rectangle of the screen, in cells.
#[derive(Clone, Copy, Debug, PartialEq, Eq)]
pub struct Area {
    /// The column of the left edge.
    pub x: u16,
    /// The row of the upper edge.
    pub y: u16,
    /// How many columns wide it is.
    pub width: u16,
    /// How many rows high it is.
    pub height: u16,
}

impl Area {
    /// A rectangle.
    pub fn new(x: u16, y: u16, width: u16, height: u16) -> (r: Area)
        ensures
            r == (Area { x, y, width, height }),
    {
        Area { x, y, width, height }
    }
}

} // verus!

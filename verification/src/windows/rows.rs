//! The rows of a list that a pane shows, and how a row stands out.

use vstd::prelude::*;

verus! {

/// How a row of a list stands out.
#[derive(Clone, Copy, Debug, PartialEq, Eq)]
pub enum Highlight {
    /// The row is being played and is selected.
    PlayingSelected,
    /// The row is being played.
    Playing,
    /// The row is selected.
    Selected,
    /// The row is neither.
    Plain,
}

/// The first row of a list of `len` rows that a pane shows from the row
/// `offset` on.
pub open spec fn first_shown(offset: usize, len: usize) -> usize {
    if offset < len {
        offset
    } else {
        len
    }
}

/// The row behind the last that a pane of the height `height` shows of a
/// list of `len` rows, from the row `offset` on: the pane has `height - 2`
/// rows within its border.
pub open spec fn end_shown(offset: usize, len: usize, height: u16) -> usize {
    if offset + height - 2 < len {
        (offset + height - 2) as usize
    } else {
        len
    }
}

/// The rows that a pane shows: from the first of the pair up to, and without,
/// the second.
pub fn shown(offset: usize, len: usize, height: u16) -> (r: (usize, usize))
    requires
        height >= 2,
    ensures
        r.0 == first_shown(offset, len),
        r.1 == end_shown(offset, len, height),
        r.0 <= r.1 <= len,
{
    let rows = (height - 2) as usize;
    if offset >= len {
        (len, len)
    } else if rows < len - offset {
        (offset, offset + rows)
    } else {
        (offset, len)
    }
}

} // verus!

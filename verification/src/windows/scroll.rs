//! Walking a list that is longer than its pane.
//!
//! A pane of height `height` shows `height - 2` rows within its border. The
//! list is shown from the row `offset` on. The row that is selected keeps a
//! distance to the edges of the pane, the padding, as long as the list has
//! rows to scroll by.
//!
//! The steps count in machine numbers and ask of their caller that no count
//! leaves the range of these numbers.

use vstd::prelude::*;

verus! {

/// How many rows the selection keeps away from the edge of a pane of the
/// height `height`.
pub open spec fn padding_of(height: u16) -> int {
    let rows = height - 2;
    if rows <= 3 {
        0
    } else if rows <= 7 {
        1
    } else if rows <= 11 {
        2
    } else if rows <= 15 {
        3
    } else if rows <= 19 {
        4
    } else {
        5
    }
}

/// The selection after a step down a list of `len` rows: the next row, and
/// the same row at the end of the list.
pub open spec fn moved_down(selected: usize, len: usize) -> usize {
    if selected < len - 1 {
        (selected + 1) as usize
    } else {
        selected
    }
}

/// The selection after a step up: the row before, and the same row at the
/// start of the list.
pub open spec fn moved_up(selected: usize) -> usize {
    if selected > 0 {
        (selected - 1) as usize
    } else {
        selected
    }
}

/// The offset after a step down that has brought the selection to
/// `selected`: one more if the selection has come within the padding of the
/// lower edge and the list has `height - 2` rows or more below the offset.
pub open spec fn offset_down(selected: usize, offset: usize, len: usize, height: u16) -> usize {
    if selected > offset + height - 3 - padding_of(height) && offset < len - height + 2 {
        (offset + 1) as usize
    } else {
        offset
    }
}

/// The offset after a step up, where `marker` is the row that is held
/// against the upper edge: one less if the marker has come within the
/// padding of the upper edge and the list is scrolled at all.
pub open spec fn offset_up(marker: usize, offset: usize, height: u16) -> usize {
    if marker < offset + padding_of(height) && offset > 0 {
        (offset - 1) as usize
    } else {
        offset
    }
}

/// A step down stays within the machine's numbers.
pub open spec fn can_step_down(selected: usize, offset: usize, len: usize, height: u16) -> bool {
    len > 0 ==> {
        &&& height >= 2
        &&& 3 + padding_of(height) <= offset + height <= usize::MAX
        &&& moved_down(selected, len) > offset + height - 3 - padding_of(height) ==> len >= height
    }
}

/// A step up stays within the machine's numbers.
pub open spec fn can_step_up(offset: usize, len: usize, height: u16) -> bool {
    len > 0 ==> height >= 2 && offset + padding_of(height) <= usize::MAX
}

/// The padding of a pane.
pub fn padding(height: u16) -> (r: usize)
    requires
        height >= 2,
    ensures
        r == padding_of(height),
{
    let rows = height - 2;
    if rows <= 3 {
        0
    } else if rows <= 7 {
        1
    } else if rows <= 11 {
        2
    } else if rows <= 15 {
        3
    } else if rows <= 19 {
        4
    } else {
        5
    }
}

/// Whether a step down stays within the machine's numbers.
pub fn check_step_down(selected: usize, offset: usize, len: usize, height: u16) -> (r: bool)
    ensures
        r == can_step_down(selected, offset, len, height),
{
    if len == 0 {
        return true;
    }
    if height < 2 {
        return false;
    }
    let pad = padding(height);
    let rows = height as usize;
    if offset > usize::MAX - rows {
        return false;
    }
    if offset + rows < 3 + pad {
        return false;
    }
    let moved = if selected < len - 1 {
        selected + 1
    } else {
        selected
    };
    if moved > offset + rows - 3 - pad {
        len >= rows
    } else {
        true
    }
}

/// Whether a step up stays within the machine's numbers.
pub fn check_step_up(offset: usize, len: usize, height: u16) -> (r: bool)
    ensures
        r == can_step_up(offset, len, height),
{
    if len == 0 {
        return true;
    }
    if height < 2 {
        return false;
    }
    offset <= usize::MAX - padding(height)
}

/// Takes a step down a list of `len` rows; gives the selection and the
/// offset after it. Nothing moves in a list without rows.
pub fn step_down(selected: usize, offset: usize, len: usize, height: u16) -> (r: (usize, usize))
    requires
        can_step_down(selected, offset, len, height),
    ensures
        r == if len == 0 {
            (selected, offset)
        } else {
            (
                moved_down(selected, len),
                offset_down(moved_down(selected, len), offset, len, height),
            )
        },
{
    if len == 0 {
        return (selected, offset);
    }
    let mut selected = selected;
    let mut offset = offset;
    if selected < len - 1 {
        selected += 1;
    }
    let pad = padding(height);
    if selected > offset + height as usize - 3 - pad && offset < len - height as usize + 2 {
        offset += 1;
    }
    (selected, offset)
}

/// Takes a step up a list of `len` rows; gives the selection and the offset
/// after it. `marker` tells which row is held against the upper edge: the
/// selection after the step where `None`, and the given row else. Nothing
/// moves in a list without rows.
pub fn step_up(
    selected: usize,
    marker: Option<usize>,
    offset: usize,
    len: usize,
    height: u16,
) -> (r: (usize, usize))
    requires
        can_step_up(offset, len, height),
    ensures
        r == if len == 0 {
            (selected, offset)
        } else {
            (
                moved_up(selected),
                offset_up(
                    match marker {
                        Some(row) => row,
                        None => moved_up(selected),
                    },
                    offset,
                    height,
                ),
            )
        },
{
    if len == 0 {
        return (selected, offset);
    }
    let mut selected = selected;
    let mut offset = offset;
    if selected > 0 {
        selected -= 1;
    }
    let pad = padding(height);
    let held = match marker {
        Some(row) => row,
        None => selected,
    };
    if held < offset + pad && offset > 0 {
        offset -= 1;
    }
    (selected, offset)
}

} // verus!

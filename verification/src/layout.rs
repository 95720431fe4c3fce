//! The size a picture is scaled to before it is rendered.
//!
//! A terminal cell is taller than it is wide, so a frame of `h` rows is
//! given `2.5 h` columns.

use vstd::prelude::*;

verus! {

/// The number of rows assumed where the terminal's height is unknown.
pub const DEFAULT_ROWS: u32 = 50;

/// The most rows a still image is given.
pub const IMAGE_MAX_ROWS: u32 = 100;

/// The most rows a video frame is given.
pub const VIDEO_MAX_ROWS: u32 = 50;

/// The rows of the target: the terminal's rows, or [`DEFAULT_ROWS`] where
/// they are unknown, but at most `max_rows`.
pub open spec fn target_rows(terminal_rows: Option<u16>, max_rows: u32) -> nat {
    let rows: nat = match terminal_rows {
        Some(rows) => rows as nat,
        None => DEFAULT_ROWS as nat,
    };
    if rows <= max_rows {
        rows
    } else {
        max_rows as nat
    }
}

/// The columns of a target of `rows` rows: five halves of the rows, rounded
/// down, and at most `u32::MAX`.
pub open spec fn target_cols(rows: nat) -> nat {
    let cols = rows * 5 / 2;
    if cols <= u32::MAX {
        cols
    } else {
        u32::MAX as nat
    }
}

/// The width and height, in that order, that a picture is scaled to.
pub fn target_size(terminal_rows: Option<u16>, max_rows: u32) -> (size: (u32, u32))
    ensures
        size.1 == target_rows(terminal_rows, max_rows),
        size.0 == target_cols(size.1 as nat),
{
    let rows: u32 = match terminal_rows {
        Some(rows) => rows as u32,
        None => DEFAULT_ROWS,
    };
    let height: u32 = if rows <= max_rows {
        rows
    } else {
        max_rows
    };
    let cols: u64 = (height as u64) * 5 / 2;
    let width: u32 = if cols <= u32::MAX as u64 {
        cols as u32
    } else {
        u32::MAX
    };
    (width, height)
}

} // verus!

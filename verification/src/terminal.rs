//! Positions as a terminal counts them.

use crate::editor::Position;
use vstd::prelude::*;
use vstd::std_specs::convert::FromSpecImpl;

verus! {

/// A cell of the terminal in ANSI coordinates, which start at 1.
#[derive(Debug, PartialEq, Eq, Structural, Clone, Copy)]
pub struct AnsiPosition {
    pub x: u16,
    pub y: u16,
}

/// The ANSI coordinate of a 0-based one: the low 16 bits, plus one, held at
/// `u16::MAX`.
pub open spec fn ansi_coordinate(v: usize) -> u16 {
    let low = (v % 0x1_0000) as u16;
    if low == u16::MAX {
        u16::MAX
    } else {
        (low + 1) as u16
    }
}

impl From<Position> for AnsiPosition {
    fn from(p: Position) -> (r: Self) {
        Self { x: to_ansi(p.x), y: to_ansi(p.y) }
    }
}

impl FromSpecImpl<Position> for AnsiPosition {
    open spec fn obeys_from_spec() -> bool {
        true
    }

    open spec fn from_spec(p: Position) -> Self {
        AnsiPosition { x: ansi_coordinate(p.x), y: ansi_coordinate(p.y) }
    }
}

fn to_ansi(v: usize) -> (r: u16)
    ensures
        r == ansi_coordinate(v),
{
    let low: u16 = (v % 0x1_0000) as u16;
    low.saturating_add(1)
}

/// The cell of the text that a press of the mouse on the terminal cell in
/// column `x` of row `y` points at, where the rows are shown behind line
/// numbers `row_prefix_length` wide: the columns of the numbers and of the
/// space behind them do not count.
pub open spec fn cursor_index_of_press(x: u16, y: u16, row_prefix_length: u8) -> Position {
    let adjustment: u16 = if row_prefix_length == 0 {
        0
    } else if row_prefix_length == u8::MAX {
        u8::MAX as u16
    } else {
        (row_prefix_length + 1) as u16
    };
    let column: u16 = if x >= adjustment {
        (x - adjustment) as u16
    } else {
        0
    };
    Position { x: crate::editor::zero_based(column), y: crate::editor::zero_based(y) }
}

/// The cell of the text that a press of the mouse points at.
pub fn get_cursor_index_from_mouse_event(x: u16, y: u16, row_prefix_length: u8) -> (r: Position)
    ensures
        r == cursor_index_of_press(x, y, row_prefix_length),
{
    let offset_adjustment: u8 = if row_prefix_length > 0 {
        row_prefix_length.saturating_add(1)
    } else {
        0
    };
    let ansi_position = AnsiPosition { x: x.saturating_sub(offset_adjustment as u16), y };
    Position::from(ansi_position)
}

/// The cell of the terminal on which the cursor is drawn for the position
/// `position` in the text, on a terminal of `width` columns and `height`
/// rows that shows the rows behind line numbers `row_prefix_length` wide:
/// the position in ANSI coordinates, moved right by the numbers and the
/// space behind them, and held within the terminal.
pub open spec fn cursor_cell(position: Position, row_prefix_length: u8, width: u16, height: u16)
    -> AnsiPosition {
    let prefix: u16 = if row_prefix_length == 0 {
        0
    } else if row_prefix_length == u8::MAX {
        u8::MAX as u16
    } else {
        (row_prefix_length + 1) as u16
    };
    let x = ansi_coordinate(position.x);
    let y = ansi_coordinate(position.y);
    let shifted: u16 = if x + prefix > u16::MAX {
        u16::MAX
    } else {
        (x + prefix) as u16
    };
    AnsiPosition {
        x: if shifted <= width {
            shifted
        } else {
            width
        },
        y: if y <= height {
            y
        } else {
            height
        },
    }
}

/// The cell of the terminal on which the cursor is drawn.
pub fn cursor_cell_of(position: Position, row_prefix_length: u8, width: u16, height: u16) -> (r:
    AnsiPosition)
    ensures
        r == cursor_cell(position, row_prefix_length, width, height),
{
    let ansi_position = AnsiPosition::from(position);
    let prefix: u8 = if row_prefix_length > 0 {
        row_prefix_length.saturating_add(1)
    } else {
        0
    };
    let shifted = ansi_position.x.saturating_add(prefix as u16);
    AnsiPosition {
        x: if shifted <= width {
            shifted
        } else {
            width
        },
        y: if ansi_position.y <= height {
            ansi_position.y
        } else {
            height
        },
    }
}

} // verus!

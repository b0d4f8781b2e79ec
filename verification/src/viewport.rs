//! The rules that move the cursor and scroll the screen.
//!
//! The cursor is kept relative to the screen, next to the offset by which the
//! screen is scrolled; the place of the cursor in the document is the sum of
//! the two. The functions here say where both end up after a move.

use crate::console::ConsoleSize;
use crate::document::Lines;
use crate::editor::{Position, ViewportOffset};
use crate::indexing::{saturating_add_spec, saturating_sub_spec};
use crate::mode::Mode;
use crate::row::cluster_count;
use vstd::prelude::*;

verus! {

/// A direction in which the cursor steps.
#[derive(Debug, PartialEq, Eq, Structural, Clone, Copy)]
pub enum Direction {
    Up,
    Down,
    Left,
    Right,
}

/// Where the cursor is on the screen and how far the screen is scrolled.
/// The place of the cursor in the document is the sum of the two.
pub struct Viewport {
    pub cursor: Position,
    pub offset: ViewportOffset,
}

/// The smaller of two numbers.
pub open spec fn min_spec(a: usize, b: usize) -> usize {
    if a <= b {
        a
    } else {
        b
    }
}

/// The number of clusters of row `index` of `rows`; zero for a row that
/// `rows` does not have.
pub open spec fn row_length(rows: Lines, index: usize) -> usize {
    if index < rows.len() {
        cluster_count(rows[index as int]) as usize
    } else {
        0
    }
}

/// The viewport after the cursor went to row `target` of a document of
/// `num_rows` rows, on a screen whose text area is `view_height` rows high.
/// The target is first held at the last row. A target within `view_height`
/// rows of the top of the viewport moves only the cursor. Otherwise the
/// viewport scrolls: to the top of the document for a target in its first
/// half screen, to `view_height` rows before its end for one in its last half
/// screen, and so that the target stands in the middle of the screen for any
/// other.
pub open spec fn moved_to_row(v: Viewport, target: usize, num_rows: usize, view_height: usize)
    -> Viewport {
    let y = min_spec(target, saturating_sub_spec(num_rows, 1));
    let middle = saturating_sub_spec(view_height / 2, 1);
    if v.offset.rows <= y && y <= saturating_add_spec(v.offset.rows, view_height) {
        Viewport {
            cursor: Position { x: v.cursor.x, y: saturating_sub_spec(y, v.offset.rows) },
            offset: v.offset,
        }
    } else if y < middle {
        Viewport {
            cursor: Position { x: v.cursor.x, y },
            offset: ViewportOffset { rows: 0, columns: v.offset.columns },
        }
    } else if y >= saturating_sub_spec(saturating_sub_spec(num_rows, view_height / 2), 1) {
        let rows = saturating_sub_spec(num_rows, view_height);
        Viewport {
            cursor: Position { x: v.cursor.x, y: saturating_sub_spec(y, rows) },
            offset: ViewportOffset { rows, columns: v.offset.columns },
        }
    } else {
        Viewport {
            cursor: Position { x: v.cursor.x, y: middle },
            offset: ViewportOffset {
                rows: saturating_sub_spec(y, middle),
                columns: v.offset.columns,
            },
        }
    }
}

/// The viewport after the cursor went to column `target` on a screen that is
/// `width` columns wide. A target within the width moves the cursor there and
/// scrolls back to the first column; one beyond it puts the cursor in the last
/// column of the screen and scrolls right.
pub open spec fn moved_to_column(v: Viewport, target: usize, width: usize) -> Viewport {
    if target > width {
        Viewport {
            cursor: Position { x: saturating_sub_spec(width, 1), y: v.cursor.y },
            offset: ViewportOffset {
                rows: v.offset.rows,
                columns: saturating_add_spec(
                    saturating_sub_spec(saturating_sub_spec(target, width), v.offset.columns),
                    1,
                ),
            },
        }
    } else {
        Viewport {
            cursor: Position { x: target, y: v.cursor.y },
            offset: ViewportOffset { rows: v.offset.rows, columns: 0 },
        }
    }
}

/// The viewport after the cursor went one step in `direction`, in a document
/// whose last row is `last_row`, with `row_length` clusters in the row that
/// the steps began in, on a screen whose last row is `bottom` and whose last
/// column is `right`. The cursor moves within the screen where it can; at the
/// edge of the screen the viewport scrolls instead. A step down stops at the
/// last row of the document, a step right behind the last cluster of the row.
pub open spec fn stepped(
    v: Viewport,
    direction: Direction,
    last_row: usize,
    row_length: usize,
    bottom: usize,
    right: usize,
) -> Viewport {
    let Viewport { cursor, offset } = v;
    match direction {
        Direction::Up => if cursor.y == 0 {
            Viewport {
                cursor,
                offset: ViewportOffset {
                    rows: saturating_sub_spec(offset.rows, 1),
                    columns: offset.columns,
                },
            }
        } else {
            Viewport { cursor: Position { x: cursor.x, y: (cursor.y - 1) as usize }, offset }
        },
        Direction::Down => if saturating_add_spec(cursor.y, offset.rows) < last_row {
            if cursor.y < bottom {
                Viewport { cursor: Position { x: cursor.x, y: (cursor.y + 1) as usize }, offset }
            } else {
                Viewport {
                    cursor,
                    offset: ViewportOffset {
                        rows: saturating_add_spec(offset.rows, 1),
                        columns: offset.columns,
                    },
                }
            }
        } else {
            v
        },
        Direction::Left => if cursor.x >= right {
            Viewport {
                cursor,
                offset: ViewportOffset {
                    rows: offset.rows,
                    columns: saturating_sub_spec(offset.columns, 1),
                },
            }
        } else {
            Viewport { cursor: Position { x: saturating_sub_spec(cursor.x, 1), y: cursor.y }, offset }
        },
        Direction::Right => if saturating_add_spec(cursor.x, offset.columns)
            <= saturating_sub_spec(row_length, 1) {
            if cursor.x < right {
                Viewport { cursor: Position { x: (cursor.x + 1) as usize, y: cursor.y }, offset }
            } else {
                Viewport {
                    cursor,
                    offset: ViewportOffset {
                        rows: offset.rows,
                        columns: saturating_add_spec(offset.columns, 1),
                    },
                }
            }
        } else {
            v
        },
    }
}

/// The viewport after `times` steps in `direction`.
pub open spec fn stepped_times(
    v: Viewport,
    direction: Direction,
    times: nat,
    last_row: usize,
    row_length: usize,
    bottom: usize,
    right: usize,
) -> Viewport
    decreases times,
{
    if times == 0 {
        v
    } else {
        stepped(
            stepped_times(v, direction, (times - 1) as nat, last_row, row_length, bottom, right),
            direction,
            last_row,
            row_length,
            bottom,
            right,
        )
    }
}

/// The viewport after `times` steps in `direction` over the rows `rows`, on a
/// screen of `size`. In normal mode the cursor then moves left, if it has to,
/// onto the last cluster of the row that it has come to.
pub open spec fn moved(
    v: Viewport,
    rows: Lines,
    mode: Mode,
    size: ConsoleSize,
    direction: Direction,
    times: nat,
) -> Viewport {
    let bottom = saturating_sub_spec(size.height as usize, 1);
    let right = saturating_sub_spec(size.width as usize, 1);
    let last_row = saturating_sub_spec(rows.len() as usize, 1);
    let length = row_length(rows, saturating_add_spec(v.cursor.y, v.offset.rows));
    let after = stepped_times(v, direction, times, last_row, length, bottom, right);
    match mode {
        Mode::Insert => after,
        Mode::Normal => {
            let now = row_length(rows, saturating_add_spec(after.cursor.y, after.offset.rows));
            Viewport {
                cursor: Position {
                    x: min_spec(saturating_sub_spec(now, 1), after.cursor.x),
                    y: after.cursor.y,
                },
                offset: after.offset,
            }
        },
    }
}

/// The viewport after a click on the screen cell `click`: the cursor goes
/// there where the cell names a row of the document and a column that is not
/// behind the end of that row, and stays where it is otherwise.
pub open spec fn clicked(v: Viewport, rows: Lines, click: Position) -> Viewport {
    if click.y < rows.len() && click.x <= cluster_count(rows[click.y as int]) {
        Viewport { cursor: click, offset: v.offset }
    } else {
        v
    }
}

/// After a move to a row the cursor is in that row of the document, or in the
/// last row where the document has no such row, on every screen that shows at
/// least one row of text.
pub proof fn lemma_moved_to_row_reaches_target(
    v: Viewport,
    target: usize,
    num_rows: usize,
    view_height: usize,
)
    requires
        view_height >= 1,
    ensures
        moved_to_row(v, target, num_rows, view_height).cursor.y + moved_to_row(
            v,
            target,
            num_rows,
            view_height,
        ).offset.rows == min_spec(target, saturating_sub_spec(num_rows, 1)),
{
}

/// A move to a row leaves the column of the cursor and the columns scrolled
/// as they were.
pub proof fn lemma_moved_to_row_keeps_column(
    v: Viewport,
    target: usize,
    num_rows: usize,
    view_height: usize,
)
    ensures
        moved_to_row(v, target, num_rows, view_height).cursor.x == v.cursor.x,
        moved_to_row(v, target, num_rows, view_height).offset.columns == v.offset.columns,
{
}

/// After a move to a column that is on the screen the cursor is in that
/// column of the document, with nothing scrolled to the left of the screen.
pub proof fn lemma_moved_to_column_reaches_target(v: Viewport, target: usize, width: usize)
    requires
        target <= width,
    ensures
        moved_to_column(v, target, width).cursor.x == target,
        moved_to_column(v, target, width).offset.columns == 0,
        moved_to_column(v, target, width).cursor.y == v.cursor.y,
        moved_to_column(v, target, width).offset.rows == v.offset.rows,
{
}

/// Steps up and down never take the cursor below the last row of the
/// document, and no step takes it out of the document where it was in it.
pub proof fn lemma_stepped_stays_in_document(
    v: Viewport,
    direction: Direction,
    last_row: usize,
    row_length: usize,
    bottom: usize,
    right: usize,
)
    requires
        v.cursor.y + v.offset.rows <= last_row,
    ensures
        stepped(v, direction, last_row, row_length, bottom, right).cursor.y + stepped(
            v,
            direction,
            last_row,
            row_length,
            bottom,
            right,
        ).offset.rows <= last_row,
{
}

/// However many steps the cursor takes, it stays in the document where it was
/// in it.
pub proof fn lemma_stepped_times_stays_in_document(
    v: Viewport,
    direction: Direction,
    times: nat,
    last_row: usize,
    row_length: usize,
    bottom: usize,
    right: usize,
)
    requires
        v.cursor.y + v.offset.rows <= last_row,
    ensures
        stepped_times(v, direction, times, last_row, row_length, bottom, right).cursor.y
            + stepped_times(v, direction, times, last_row, row_length, bottom, right).offset.rows
            <= last_row,
    decreases times,
{
    if times > 0 {
        lemma_stepped_times_stays_in_document(
            v,
            direction,
            (times - 1) as nat,
            last_row,
            row_length,
            bottom,
            right,
        );
        lemma_stepped_stays_in_document(
            stepped_times(v, direction, (times - 1) as nat, last_row, row_length, bottom, right),
            direction,
            last_row,
            row_length,
            bottom,
            right,
        );
    }
}

} // verus!

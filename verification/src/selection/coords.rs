//! Selection coordinate math: screen and content row mapping, drag
//! auto-scroll, and range normalization.

use vstd::prelude::*;

verus! {

/// A selection endpoint in content coordinates: `(absolute_row, col)`, where
/// the row indexes the whole retained history and does not move as the view
/// scrolls.
pub type Cell = (usize, usize);

/// Lexicographic order on cells: row first, then column.
pub open spec fn cell_le(a: Cell, b: Cell) -> bool {
    a.0 < b.0 || (a.0 == b.0 && a.1 <= b.1)
}

/// Map a visible screen row to its absolute content row.
pub fn screen_to_content(top_row: usize, screen_y: usize) -> (row: usize)
    requires
        top_row + screen_y <= usize::MAX,
    ensures
        row == top_row + screen_y,
{
    top_row + screen_y
}

/// The visible row showing content row `abs_row`, or `None` when it lies
/// outside `[top_row, top_row + height)`.
pub open spec fn screen_row_of(top_row: int, abs_row: int, height: int) -> Option<usize> {
    if top_row <= abs_row && abs_row - top_row < height {
        Some((abs_row - top_row) as usize)
    } else {
        None
    }
}

/// Inverse of [`screen_to_content`], limited to the visible region: `None`
/// when `abs_row` lies outside `[top_row, top_row + height)`.
pub fn content_to_screen(top_row: usize, abs_row: usize, height: usize) -> (y: Option<usize>)
    ensures
        y == screen_row_of(top_row as int, abs_row as int, height as int),
{
    if abs_row < top_row {
        return None;
    }
    let y = abs_row - top_row;
    if y >= height {
        None
    } else {
        Some(y)
    }
}

/// The next top row while dragging past a viewport edge: one up when
/// `drag_y < 0`, one down when `drag_y >= height`, unchanged otherwise, then
/// clamped to `[0, history_len - height]`.
pub fn auto_scroll(top_row: usize, drag_y: isize, height: usize, history_len: usize) -> (next: usize)
    ensures
        ({
            let max_top: int = if history_len >= height { history_len - height } else { 0 };
            let moved: int = if drag_y < 0 {
                if top_row > 0 { top_row - 1 } else { 0 }
            } else if drag_y >= height {
                top_row + 1
            } else {
                top_row as int
            };
            next == if moved <= max_top { moved } else { max_top }
        }),
{
    let max_top = history_len.saturating_sub(height);
    let next = if drag_y < 0 {
        top_row.saturating_sub(1)
    } else if drag_y as usize >= height {
        if top_row < max_top { top_row + 1 } else { max_top }
    } else {
        top_row
    };
    if next < max_top { next } else { max_top }
}

/// Order a selection's two ends top-left first.
pub fn normalize(anchor: Cell, end: Cell) -> (r: (Cell, Cell))
    ensures
        r == (if cell_le(anchor, end) { (anchor, end) } else { (end, anchor) }),
        cell_le(r.0, r.1),
{
    if end.0 < anchor.0 || (end.0 == anchor.0 && end.1 < anchor.1) {
        (end, anchor)
    } else {
        (anchor, end)
    }
}

/// Mapping a visible row to its content row and back gives the same row.
pub proof fn lemma_screen_content_round_trip(top_row: int, screen_y: usize, height: int)
    requires
        screen_y < height,
    ensures
        screen_row_of(top_row, top_row + screen_y, height) == Some(screen_y),
{
}

/// A content row maps to a visible row exactly when it lies in the viewport,
/// and then back to itself.
pub proof fn lemma_content_screen_round_trip(top_row: int, abs_row: int, height: int)
    requires
        0 <= top_row,
        0 <= height <= usize::MAX,
    ensures
        screen_row_of(top_row, abs_row, height) matches Some(y) ==> top_row + y == abs_row,
        screen_row_of(top_row, abs_row, height) is None <==> (abs_row < top_row || abs_row
            >= top_row + height),
{
}

} // verus!

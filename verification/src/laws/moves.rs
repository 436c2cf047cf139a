//! Where each cursor key leads, and what the window shows.

use crate::model::{Buffer, EditGroup, EditorView};
use vstd::prelude::*;

verus! {

/// `after` is `v` with the cursor at `row` and `col`: the text, the history, the
/// saved state and the window stay, the next edit starts an undo step, and the
/// quit question is gone.
pub open spec fn cursor_at(v: EditorView, after: EditorView, row: int, col: int) -> bool {
    &&& after.buf.row == row
    &&& after.buf.col == col
    &&& after == (EditorView {
        buf: Buffer { lines: v.buf.lines, row, col },
        group: EditGroup::Idle,
        confirm_quit: false,
        desired_col: after.desired_col,
        ..v
    })
}

/// Left leads to the character before, Right to the character behind, across
/// line breaks. They stop at the ends of the text. The column to keep is then
/// the cursor's.
pub proof fn law_steps_to_the_side(v: EditorView)
    requires
        v.wf(),
    ensures
        ({
            let row = v.buf.row;
            let col = v.buf.col;
            let len = v.buf.lines[row].len() as int;
            let left = v.move_left();
            let right = v.move_right();
            &&& left.desired_col == left.buf.col
            &&& right.desired_col == right.buf.col
            &&& col > 0 ==> cursor_at(v, left, row, col - 1)
            &&& col == 0 && row > 0 ==> cursor_at(
                v,
                left,
                row - 1,
                v.buf.lines[row - 1].len() as int,
            )
            &&& col == 0 && row == 0 ==> cursor_at(v, left, 0, 0)
            &&& col < len ==> cursor_at(v, right, row, col + 1)
            &&& col == len && row + 1 < v.buf.lines.len() ==> cursor_at(v, right, row + 1, 0)
            &&& col == len && row + 1 == v.buf.lines.len() ==> cursor_at(v, right, row, col)
        }),
{
}

/// Home leads to the start of the line and End behind its last character. The
/// column to keep is then the cursor's.
pub proof fn law_ends_of_the_line(v: EditorView)
    requires
        v.wf(),
    ensures
        cursor_at(v, v.move_home(), v.buf.row, 0),
        v.move_home().desired_col == 0,
        cursor_at(v, v.move_end(), v.buf.row, v.buf.lines[v.buf.row].len() as int),
        v.move_end().desired_col == v.buf.lines[v.buf.row].len(),
{
}

/// Whether `after` is `v` on line `row`, in the column to keep or at the end of
/// a line that is too short for it; the column to keep stays.
pub open spec fn on_row(v: EditorView, after: EditorView, row: int) -> bool {
    &&& after.desired_col == v.desired_col
    &&& v.desired_col <= v.buf.lines[row].len() ==> cursor_at(v, after, row, v.desired_col)
    &&& v.desired_col > v.buf.lines[row].len() ==> cursor_at(
        v,
        after,
        row,
        v.buf.lines[row].len() as int,
    )
}

/// Up and Down lead to the next line in the column to keep. On the first and the
/// last line they leave the cursor where it is.
pub proof fn law_steps_up_and_down(v: EditorView)
    requires
        v.wf(),
    ensures
        ({
            let row = v.buf.row;
            &&& row > 0 ==> on_row(v, v.move_up(), row - 1)
            &&& row == 0 ==> cursor_at(v, v.move_up(), row, v.buf.col)
            &&& row == 0 ==> v.move_up().desired_col == v.desired_col
            &&& row + 1 < v.buf.lines.len() ==> on_row(v, v.move_down(), row + 1)
            &&& row + 1 == v.buf.lines.len() ==> cursor_at(v, v.move_down(), row, v.buf.col)
            &&& row + 1 == v.buf.lines.len() ==> v.move_down().desired_col == v.desired_col
        }),
{
}

/// A page leads as many lines up or down as it has, but not beyond the first and
/// the last line, in the column to keep.
pub proof fn law_pages_lead_by_their_size(v: EditorView, page: int)
    requires
        v.wf(),
        0 <= page,
    ensures
        ({
            let row = v.buf.row;
            let last = v.buf.lines.len() - 1;
            &&& page <= row ==> on_row(v, v.page_up(page), row - page)
            &&& page > row ==> on_row(v, v.page_up(page), 0)
            &&& row + page <= last ==> on_row(v, v.page_down(page), row + page)
            &&& row + page > last ==> on_row(v, v.page_down(page), last)
        }),
{
}

/// How a window over positions follows a cursor: it shows the cursor, stays if
/// it did so before, and else moves just far enough to show it at its edge. One
/// without room stays.
pub open spec fn followed(before: int, after: int, cursor: int, size: int) -> bool {
    &&& size == 0 ==> after == before
    &&& size > 0 ==> after <= cursor < after + size
    &&& size > 0 && before <= cursor < before + size ==> after == before
    &&& size > 0 && cursor < before ==> after == cursor
    &&& size > 0 && cursor >= before + size ==> after + size - 1 == cursor
}

/// The window follows the cursor's line over its height and the cursor's column
/// over its width. Nothing else changes.
pub proof fn law_window_follows_both_ways(v: EditorView, width: int, height: int)
    requires
        0 <= width,
        0 <= height,
    ensures
        ({
            let after = v.ensure_visible(width, height);
            &&& followed(v.scroll, after.scroll, v.buf.row, height)
            &&& followed(v.col_scroll, after.col_scroll, v.buf.col, width)
            &&& after == (EditorView {
                scroll: after.scroll,
                col_scroll: after.col_scroll,
                ..v
            })
        }),
{
}

} // verus!

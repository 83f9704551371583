//! What a change of size keeps of the two pages.

use vstd::prelude::*;

use crate::laws::frames::is_erased;
use crate::laws::screen::law_growing_and_shrinking_back_keeps_lines;
use crate::screen::cell::{Cell, Cursor, CursorShape};
use crate::screen::model::{resized_lines, BufferModel, ScreenModel};

verus! {

/// Whether a row or column is the one before, or the last one if there are fewer now.
pub open spec fn is_nearest(at: usize, before: usize, size: int) -> bool {
    &&& before < size ==> at == before
    &&& before >= size ==> at == size - 1
}

/// Whether a line has this many cells: those that were there before, and erased ones for
/// the rest.
pub open spec fn is_refitted(line: Seq<Cell>, before: Seq<Cell>, cols: int) -> bool {
    &&& line.len() == cols
    &&& forall|c: int|
        0 <= c < cols ==> {
            &&& c < before.len() ==> #[trigger] line[c] == before[c]
            &&& c >= before.len() ==> is_erased(line[c])
        }
}

/// Whether a page was given another size: the cells that both sizes have stay where they
/// are and new ones are erased; the cursor and the saved cursor stay at their places, or
/// at the nearest ones; the attributes stay, and the scroll region is the whole page.
pub open spec fn is_fitted(before: BufferModel, after: BufferModel, cols: int, rows: int) -> bool {
    &&& after.lines.len() == rows
    &&& forall|r: int|
        0 <= r < rows ==> {
            &&& r < before.lines.len() ==> is_refitted(
                #[trigger] after.lines[r],
                before.lines[r],
                cols,
            )
            &&& r >= before.lines.len() ==> is_refitted(after.lines[r], Seq::empty(), cols)
        }
    &&& is_nearest(after.cursor.row, before.cursor.row, rows)
    &&& is_nearest(after.cursor.col, before.cursor.col, cols)
    &&& after.cursor.visible
    &&& after.cursor.shape == CursorShape::Block
    &&& is_nearest(after.saved_cursor.row, before.saved_cursor.row, rows)
    &&& is_nearest(after.saved_cursor.col, before.saved_cursor.col, cols)
    &&& after.saved_cursor.visible == before.saved_cursor.visible
    &&& after.saved_cursor.shape == before.saved_cursor.shape
    &&& after.attrs == before.attrs
    &&& after.saved_attrs == before.saved_attrs
    &&& after.scroll_top == 0
    &&& after.scroll_bottom == rows - 1
    &&& after.tabstops.len() == cols
    &&& forall|c: int| 0 <= c < cols ==> #[trigger] after.tabstops[c] == (c % 8 == 0)
}

proof fn lemma_fitted(page: BufferModel, old_cols: int, old_rows: int, cols: int, rows: int)
    requires
        page.wf(old_cols, old_rows),
        1 <= cols <= usize::MAX,
        1 <= rows <= usize::MAX,
    ensures
        is_fitted(page, page.resized(cols, rows), cols, rows),
{
    let after = page.resized(cols, rows);
    assert(after.lines == resized_lines(page.lines, cols, rows));
}

/// After a change of size both pages have it and keep what fits, the same page is shown,
/// the scrollback is as it was, and every row is drawn again. A size of zero counts as
/// one, and the size that the screen has already changes nothing.
pub proof fn law_resize_keeps_what_fits(screen: ScreenModel, cols: int, rows: int)
    requires
        screen.wf(),
        0 <= cols <= usize::MAX,
        0 <= rows <= usize::MAX,
    ensures
        ({
            let after = screen.with_size(cols, rows);
            let new_cols = if cols == 0 {
                1
            } else {
                cols
            };
            let new_rows = if rows == 0 {
                1
            } else {
                rows
            };
            let same = new_cols == screen.cols && new_rows == screen.rows;
            &&& after.cols == new_cols
            &&& after.rows == new_rows
            &&& after.use_alternate == screen.use_alternate
            &&& after.scrollback == screen.scrollback
            &&& after.scrollback_cap == screen.scrollback_cap
            &&& same ==> after == screen
            &&& !same ==> is_fitted(screen.primary, after.primary, new_cols, new_rows)
            &&& !same ==> is_fitted(screen.alternate, after.alternate, new_cols, new_rows)
            &&& !same ==> after.dirty.len() == new_rows && forall|r: int|
                0 <= r < new_rows ==> #[trigger] after.dirty[r]
        }),
{
    let new_cols = if cols == 0 {
        1
    } else {
        cols
    };
    let new_rows = if rows == 0 {
        1
    } else {
        rows
    };
    lemma_fitted(
        screen.primary,
        screen.cols as int,
        screen.rows as int,
        new_cols,
        new_rows,
    );
    lemma_fitted(
        screen.alternate,
        screen.cols as int,
        screen.rows as int,
        new_cols,
        new_rows,
    );
}

/// Whether two cursors are in the same place.
pub open spec fn same_place(a: Cursor, b: Cursor) -> bool {
    a.row == b.row && a.col == b.col
}

/// Going to a size that is not smaller and back to the old one brings the lines, the
/// cursors and the saved cursors of both pages back to where they were.
pub proof fn law_growing_and_shrinking_back(screen: ScreenModel, cols: int, rows: int)
    requires
        screen.wf(),
        screen.cols <= cols <= usize::MAX,
        screen.rows <= rows <= usize::MAX,
    ensures
        ({
            let back = screen.with_size(cols, rows).with_size(
                screen.cols as int,
                screen.rows as int,
            );
            &&& back.primary.lines == screen.primary.lines
            &&& back.alternate.lines == screen.alternate.lines
            &&& same_place(back.primary.cursor, screen.primary.cursor)
            &&& same_place(back.alternate.cursor, screen.alternate.cursor)
            &&& back.primary.saved_cursor == screen.primary.saved_cursor
            &&& back.alternate.saved_cursor == screen.alternate.saved_cursor
        }),
{
    let larger = screen.with_size(cols, rows);
    law_growing_and_shrinking_back_keeps_lines(screen, cols, rows);
    law_resize_keeps_what_fits(screen, cols, rows);
    if !(cols == screen.cols && rows == screen.rows) {
        assert(larger == screen.resized(cols, rows));
        assert(larger.with_size(screen.cols as int, screen.rows as int) == larger.resized(
            screen.cols as int,
            screen.rows as int,
        ));
    }
}

} // verus!

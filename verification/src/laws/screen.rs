//! What the operations on the screen undo, keep and leave alone.

use vstd::prelude::*;

use crate::laws::saving::same_saved_cursor;
use crate::screen::cell::Cell;
use crate::screen::model::{
    blank_lines, closed_up, default_tabstops, effective, max, min, next_tabstop, opened_up,
    resized_lines, shifted_down, shifted_up, BufferModel, ScreenModel,
};

verus! {

/// Restoring the cursor brings back the place, the look and the attributes that
/// were saved, on every screen that shows the same page and still has what was
/// saved there. Nothing else of the page changes.
pub proof fn law_restore_brings_back_saved_cursor(screen: ScreenModel, between: ScreenModel)
    requires
        between.use_alternate == screen.use_alternate,
        same_saved_cursor(screen.with_saved_cursor().active(), between.active()),
    ensures
        ({
            let back = between.with_restored_cursor();
            &&& back.cursor() == screen.cursor()
            &&& back.attrs() == screen.attrs()
            &&& back.active() == (BufferModel {
                cursor: screen.cursor(),
                attrs: screen.attrs(),
                ..between.active()
            })
        }),
{
}

/// Scrolling the whole primary page loses nothing while there is room: the
/// scrollback and the page, read as one text, only get blank lines at the end.
pub proof fn law_scrolling_keeps_all_lines(screen: ScreenModel, n: int)
    requires
        screen.wf(),
        !screen.use_alternate,
        screen.scrollback.len() + effective(n, screen.rows as int) <= screen.scrollback_cap,
    ensures
        ({
            let after = screen.scrolled_up(n, 0, screen.rows - 1);
            after.scrollback + after.active().lines == screen.scrollback + screen.active().lines
                + blank_lines(screen.cols as int, effective(n, screen.rows as int))
        }),
{
    let count = effective(n, screen.rows as int);
    let after = screen.scrolled_up(n, 0, screen.rows - 1);
    let lines = screen.active().lines;
    assert(after.scrollback == screen.scrollback + lines.take(count));
    assert(after.scrollback + after.active().lines =~= screen.scrollback + lines + blank_lines(
        screen.cols as int,
        count,
    ));
}

/// When the scrollback is full, the oldest lines give way and the newest stay,
/// in their order.
pub proof fn law_scrollback_keeps_newest_lines(screen: ScreenModel, n: int)
    requires
        screen.wf(),
        !screen.use_alternate,
        screen.scrollback.len() + effective(n, screen.rows as int) > screen.scrollback_cap,
    ensures
        ({
            let after = screen.scrolled_up(n, 0, screen.rows - 1);
            let all = screen.scrollback + screen.active().lines.take(
                effective(n, screen.rows as int),
            );
            &&& after.scrollback.len() == screen.scrollback_cap
            &&& forall|i: int|
                0 <= i < screen.scrollback_cap ==> #[trigger] after.scrollback[i] == all[all.len()
                    - screen.scrollback_cap + i]
        }),
{
}

/// Scrolling a part of the page, or the alternate page, keeps the scrollback as
/// it is.
pub proof fn law_partial_scrolling_keeps_scrollback(
    screen: ScreenModel,
    n: int,
    top: int,
    bottom: int,
)
    requires
        screen.wf(),
        0 <= top <= bottom < screen.rows,
        screen.use_alternate || top > 0 || bottom + 1 < screen.rows,
    ensures
        screen.scrolled_up(n, top, bottom).scrollback == screen.scrollback,
        screen.scrolled_down(n, top, bottom).scrollback == screen.scrollback,
{
}

/// Rows outside of the scroll region are out of reach of line feeds, reverse
/// line feeds, scrolling, and of inserting and deleting lines.
pub proof fn law_scroll_region_confines_scrolling(screen: ScreenModel, n: int, row: int)
    requires
        screen.wf(),
        0 <= row < screen.rows,
        row < screen.active().scroll_top || screen.active().scroll_bottom < row,
    ensures
        ({
            let line = screen.active().lines[row];
            let top = screen.active().scroll_top as int;
            let bottom = screen.active().scroll_bottom as int;
            &&& screen.line_fed().active().lines[row] == line
            &&& screen.reverse_indexed().active().lines[row] == line
            &&& screen.scrolled_up(n, top, bottom).active().lines[row] == line
            &&& screen.scrolled_down(n, top, bottom).active().lines[row] == line
            &&& screen.lines_inserted(n).active().lines[row] == line
            &&& screen.lines_deleted(n).active().lines[row] == line
        }),
{
}

/// Deleting as many lines as were inserted brings back every line that was not
/// pushed out at the bottom of the scroll region.
pub proof fn law_deleting_undoes_inserting_lines(screen: ScreenModel, n: int, row: int)
    requires
        screen.wf(),
        0 <= row < screen.rows,
        screen.active().scroll_top <= screen.cursor().row <= screen.active().scroll_bottom,
        row > screen.active().scroll_bottom || row + effective(
            n,
            screen.active().scroll_bottom - screen.cursor().row + 1,
        ) <= screen.active().scroll_bottom,
    ensures
        screen.lines_inserted(n).lines_deleted(n).active().lines[row]
            == screen.active().lines[row],
{
    let page = screen.active();
    let top = page.cursor.row as int;
    let bottom = page.scroll_bottom as int;
    let count = effective(n, bottom - top + 1);
    let cols = screen.cols as int;
    let down = shifted_down(page.lines, top, bottom, count, cols);
    assert(screen.lines_inserted(n).active().lines == down);
    let up = shifted_up(down, top, bottom, count, cols);
    assert(screen.lines_inserted(n).lines_deleted(n).active().lines == up);
    assert(up[row] == page.lines[row]);
}

/// Deleting as many characters as blanks were inserted brings back every cell of
/// the line that was not pushed out at its end.
pub proof fn law_deleting_undoes_inserting_blanks(screen: ScreenModel, n: int, col: int)
    requires
        screen.wf(),
        0 <= col,
        col + effective(n, screen.cols - screen.cursor().col) < screen.cols,
    ensures
        screen.blanks_inserted(n).chars_deleted(n).active().cursor_line()[col]
            == screen.active().cursor_line()[col],
{
    let at = screen.cursor().col as int;
    let count = effective(n, screen.cols - at);
    let line = screen.active().cursor_line();
    let open = opened_up(line, at, count);
    assert(screen.blanks_inserted(n).active().cursor_line() == open);
    let closed = closed_up(open, at, count);
    assert(screen.blanks_inserted(n).chars_deleted(n).active().cursor_line() == closed);
    assert(closed[col] == line[col]);
}

/// A line feed and a reverse line feed undo each other where neither scrolls.
pub proof fn law_reverse_line_feed_undoes_line_feed(screen: ScreenModel)
    requires
        screen.wf(),
        screen.cursor().row != screen.active().scroll_bottom,
        screen.cursor().row + 1 < screen.rows,
        screen.cursor().row + 1 != screen.active().scroll_top,
    ensures
        screen.line_fed().reverse_indexed().cursor() == screen.cursor(),
        screen.line_fed().reverse_indexed().active().lines == screen.active().lines,
{
}

/// Erasing twice is the same as erasing once, and erasing the whole page leaves
/// blank lines.
pub proof fn law_erasing_is_final(screen: ScreenModel, mode: int)
    requires
        screen.wf(),
    ensures
        screen.line_erased(mode).line_erased(mode).active().lines == screen.line_erased(
            mode,
        ).active().lines,
        screen.display_erased(2).active().lines == blank_lines(
            screen.cols as int,
            screen.rows as int,
        ),
        screen.display_erased(2).cursor() == screen.cursor(),
{
    let once = screen.line_erased(mode);
    let twice = once.line_erased(mode);
    assert(twice.active().lines =~= once.active().lines) by {
        assert(twice.active().cursor_line() =~= once.active().cursor_line());
    }
    assert(screen.display_erased(2).active().lines =~= blank_lines(
        screen.cols as int,
        screen.rows as int,
    ));
}

/// A larger grid keeps every cell, and going back to the old size gives the old
/// lines of both pages.
pub proof fn law_growing_and_shrinking_back_keeps_lines(
    screen: ScreenModel,
    cols: int,
    rows: int,
)
    requires
        screen.wf(),
        screen.cols <= cols <= usize::MAX,
        screen.rows <= rows <= usize::MAX,
    ensures
        ({
            let back = screen.resized(cols, rows).resized(screen.cols as int, screen.rows as int);
            &&& back.primary.lines == screen.primary.lines
            &&& back.alternate.lines == screen.alternate.lines
            &&& back.scrollback == screen.scrollback
        }),
{
    lemma_lines_back(screen.primary.lines, screen.cols as int, screen.rows as int, cols, rows);
    lemma_lines_back(screen.alternate.lines, screen.cols as int, screen.rows as int, cols, rows);
}

proof fn lemma_lines_back(
    lines: Seq<Seq<Cell>>,
    cols: int,
    rows: int,
    more_cols: int,
    more_rows: int,
)
    requires
        0 <= cols <= more_cols,
        0 <= rows <= more_rows,
        lines.len() == rows,
        forall|r: int| 0 <= r < rows ==> (#[trigger] lines[r]).len() == cols,
    ensures
        resized_lines(resized_lines(lines, more_cols, more_rows), cols, rows) == lines,
{
    let back = resized_lines(resized_lines(lines, more_cols, more_rows), cols, rows);
    assert forall|r: int| 0 <= r < rows implies back[r] == #[trigger] lines[r] by {
        assert(back[r] =~= lines[r]);
    }
    assert(back =~= lines);
}

/// A resized screen is valid, and what both sizes have in common is kept.
pub proof fn law_resizing_keeps_common_part(
    screen: ScreenModel,
    cols: int,
    rows: int,
    row: int,
    col: int,
)
    requires
        screen.wf(),
        1 <= cols <= usize::MAX,
        1 <= rows <= usize::MAX,
        0 <= row < rows,
        0 <= col < cols,
        row < screen.rows,
        col < screen.cols,
    ensures
        screen.resized(cols, rows).wf(),
        screen.resized(cols, rows).active().lines[row][col] == screen.active().lines[row][col],
{
}

/// A reset leaves two blank pages with nothing saved, and keeps the scrollback.
/// It does not matter what was there before, nor how often it is done.
pub proof fn law_reset_gives_blank_pages(screen: ScreenModel)
    requires
        screen.wf(),
    ensures
        screen.reset().active() == BufferModel::fresh(screen.cols as int, screen.rows as int),
        screen.reset().alternate == BufferModel::fresh(screen.cols as int, screen.rows as int),
        screen.reset().scrollback == screen.scrollback,
        screen.reset().reset() == screen.reset(),
{
    assert(screen.reset().reset() =~= screen.reset());
}

/// A screen that is given the size it has stays as it is in every respect, and
/// giving it any size twice is the same as once.
pub proof fn law_resizing_to_same_size_does_nothing(screen: ScreenModel, cols: int, rows: int)
    requires
        screen.wf(),
        0 <= cols <= usize::MAX,
        0 <= rows <= usize::MAX,
    ensures
        max(cols, 1) == screen.cols && max(rows, 1) == screen.rows ==> screen.with_size(cols, rows)
            == screen,
        screen.with_size(cols, rows).with_size(cols, rows) == screen.with_size(cols, rows),
        screen.with_size(screen.cols as int, screen.rows as int) == screen,
{
}

/// The next multiple of eight is the next tab stop, if the line reaches that far.
proof fn lemma_next_tabstop_is_multiple(cols: int, col: int)
    requires
        0 <= col,
        0 <= cols,
    ensures
        next_tabstop(default_tabstops(cols), col) == (if (col + 7) / 8 * 8 < cols {
            (col + 7) / 8 * 8
        } else {
            cols
        }),
    decreases cols - col,
{
    if col < cols && col % 8 != 0 {
        lemma_next_tabstop_is_multiple(cols, col + 1);
    }
}

/// A tab takes the cursor to the next multiple of eight, or to the last column if
/// the line ends before that.
pub proof fn law_tab_goes_to_next_multiple_of_eight(screen: ScreenModel)
    requires
        screen.wf(),
    ensures
        screen.tabbed().cursor() == screen.cursor().at(
            screen.cursor().row as int,
            min((screen.cursor().col / 8 + 1) * 8, screen.cols - 1),
        ),
        screen.tabbed().active().lines == screen.active().lines,
{
    lemma_next_tabstop_is_multiple(screen.cols as int, screen.cursor().col + 1);
}

} // verus!

//! Which cells are erased, opened up and closed up.

use vstd::prelude::*;

use crate::laws::frames::{
    after_csi, begins_with, counts, is_erased, lemma_screen_csi, only_rewrites, same_modes,
};
use crate::parser::{edit_control, erase_control, values_of, TerminalModel};
use crate::screen::model::ScreenModel;

verus! {

/// Whether a control sequence asks for this way of erasing; without a number it is the
/// first one.
pub open spec fn asks_for(groups: Seq<Seq<u16>>, mode: int) -> bool {
    begins_with(groups, mode) || (mode == 0 && (groups.len() == 0 || groups[0].len() == 0))
}

/// Whether the cell comes before the cursor in reading order.
pub open spec fn is_before_cursor(screen: ScreenModel, row: int, col: int) -> bool {
    row < screen.cursor().row || (row == screen.cursor().row && col < screen.cursor().col)
}

/// Whether the cell is the one under the cursor.
pub open spec fn is_under_cursor(screen: ScreenModel, row: int, col: int) -> bool {
    row == screen.cursor().row && col == screen.cursor().col
}

/// Whether a cell of the page is erased.
pub open spec fn erased_at(screen: ScreenModel, row: int, col: int) -> bool {
    is_erased(screen.active().lines[row][col])
}

/// Whether a cell of the page is as it was.
pub open spec fn kept_at(before: ScreenModel, after: ScreenModel, row: int, col: int) -> bool {
    after.active().lines[row][col] == before.active().lines[row][col]
}

/// Erasing in the page reaches from the cursor to the end, from the start to the cursor
/// and with it, or everywhere. Each cell there is erased, and each cell elsewhere is as
/// it was; other ways of erasing do nothing. The cursor stays.
pub proof fn law_page_is_erased_from_the_cursor(
    terminal: TerminalModel,
    groups: Seq<Seq<u16>>,
    marks: Seq<u8>,
    mode: int,
    row: int,
    col: int,
)
    requires
        terminal.screen.wf(),
        asks_for(groups, mode),
        0 <= row < terminal.screen.rows,
        0 <= col < terminal.screen.cols,
    ensures
        ({
            let before = terminal.screen;
            let after = after_csi(terminal, groups, marks, 'J');
            let reached = {
                ||| mode == 0 && !is_before_cursor(before, row, col)
                ||| mode == 1 && (is_before_cursor(before, row, col) || is_under_cursor(
                    before,
                    row,
                    col,
                ))
                ||| mode == 2
                ||| mode == 3
            };
            &&& only_rewrites(before, after.screen) && same_modes(terminal, after)
            &&& after.screen.active().lines[row].len() == before.cols
            &&& reached ==> erased_at(after.screen, row, col)
            &&& !reached ==> kept_at(before, after.screen, row, col)
        }),
{
    reveal(erase_control);
    lemma_screen_csi(terminal, groups, marks, 'J');
    let values = values_of(groups);
    assert(values[0] == mode);
}

/// Erasing in the line reaches from the cursor to its end, from its start to the cursor
/// and with it, or all of it; no other row is touched.
pub proof fn law_line_is_erased_from_the_cursor(
    terminal: TerminalModel,
    groups: Seq<Seq<u16>>,
    marks: Seq<u8>,
    mode: int,
    row: int,
    col: int,
)
    requires
        terminal.screen.wf(),
        asks_for(groups, mode),
        0 <= row < terminal.screen.rows,
        0 <= col < terminal.screen.cols,
    ensures
        ({
            let before = terminal.screen;
            let after = after_csi(terminal, groups, marks, 'K');
            let reached = before.cursor().row == row && {
                ||| mode == 0 && col >= before.cursor().col
                ||| mode == 1 && col <= before.cursor().col
                ||| mode == 2
            };
            &&& only_rewrites(before, after.screen) && same_modes(terminal, after)
            &&& after.screen.active().lines[row].len() == before.cols
            &&& reached ==> erased_at(after.screen, row, col)
            &&& !reached ==> kept_at(before, after.screen, row, col)
        }),
{
    reveal(erase_control);
    lemma_screen_csi(terminal, groups, marks, 'K');
    let values = values_of(groups);
    assert(values[0] == mode);
}

/// Erasing characters erases as many cells as the sequence counts, from the cursor on,
/// and no others.
pub proof fn law_characters_are_erased(
    terminal: TerminalModel,
    groups: Seq<Seq<u16>>,
    marks: Seq<u8>,
    n: int,
    row: int,
    col: int,
)
    requires
        terminal.screen.wf(),
        counts(groups, n),
        0 <= row < terminal.screen.rows,
        0 <= col < terminal.screen.cols,
    ensures
        ({
            let before = terminal.screen;
            let cursor = before.cursor();
            let after = after_csi(terminal, groups, marks, 'X');
            let reached = cursor.row == row && cursor.col <= col < cursor.col + n;
            &&& only_rewrites(before, after.screen) && same_modes(terminal, after)
            &&& after.screen.active().lines[row].len() == before.cols
            &&& reached ==> erased_at(after.screen, row, col)
            &&& !reached ==> kept_at(before, after.screen, row, col)
        }),
{
    reveal(erase_control);
    lemma_screen_csi(terminal, groups, marks, 'X');
}

/// Inserting blanks erases as many cells as the sequence counts, from the cursor on,
/// after what was there moved to the right. What leaves the row is lost, and no other
/// row is touched.
pub proof fn law_blanks_are_inserted(
    terminal: TerminalModel,
    groups: Seq<Seq<u16>>,
    marks: Seq<u8>,
    n: int,
    row: int,
    col: int,
)
    requires
        terminal.screen.wf(),
        counts(groups, n),
        0 <= row < terminal.screen.rows,
        0 <= col < terminal.screen.cols,
    ensures
        ({
            let before = terminal.screen;
            let cursor = before.cursor();
            let after = after_csi(terminal, groups, marks, '@');
            let old_lines = before.active().lines;
            let new_lines = after.screen.active().lines;
            &&& only_rewrites(before, after.screen) && same_modes(terminal, after)
            &&& new_lines[row].len() == before.cols
            &&& row != cursor.row || col < cursor.col ==> kept_at(before, after.screen, row, col)
            &&& row == cursor.row && cursor.col <= col < cursor.col + n ==> erased_at(
                after.screen,
                row,
                col,
            )
            &&& row == cursor.row && cursor.col + n <= col ==> new_lines[row][col]
                == old_lines[row][col - n]
        }),
{
    reveal(edit_control);
    lemma_screen_csi(terminal, groups, marks, '@');
}

/// Deleting characters takes out as many cells as the sequence counts, from the cursor
/// on. What stood behind them moves to the left, and erased cells come in at the end of
/// the row; no other row is touched.
pub proof fn law_characters_are_deleted(
    terminal: TerminalModel,
    groups: Seq<Seq<u16>>,
    marks: Seq<u8>,
    n: int,
    row: int,
    col: int,
)
    requires
        terminal.screen.wf(),
        counts(groups, n),
        0 <= row < terminal.screen.rows,
        0 <= col < terminal.screen.cols,
    ensures
        ({
            let before = terminal.screen;
            let cursor = before.cursor();
            let after = after_csi(terminal, groups, marks, 'P');
            let old_lines = before.active().lines;
            let new_lines = after.screen.active().lines;
            &&& only_rewrites(before, after.screen) && same_modes(terminal, after)
            &&& new_lines[row].len() == before.cols
            &&& row != cursor.row || col < cursor.col ==> kept_at(before, after.screen, row, col)
            &&& row == cursor.row && cursor.col <= col && col + n < before.cols
                ==> new_lines[row][col] == old_lines[row][col + n]
            &&& row == cursor.row && cursor.col <= col && before.cols <= col + n ==> erased_at(
                after.screen,
                row,
                col,
            )
        }),
{
    reveal(edit_control);
    lemma_screen_csi(terminal, groups, marks, 'P');
}

} // verus!

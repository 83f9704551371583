//! Where the cursor goes.

use vstd::prelude::*;

use crate::laws::frames::{
    after_csi, begins_with, counts, goes_on_with, is_at, lemma_screen_csi, lemma_after_execute,
    only_moves, same_modes,
};
use crate::laws::screen::law_tab_goes_to_next_multiple_of_eight;
use crate::parser::{cursor_control, values_of, TerminalModel};
use crate::vt::DispatchModel;

verus! {

/// Moving up, down, forward and back goes as many cells as the sequence counts, and
/// stops at the edge of the screen. The other coordinate stays, and nothing else
/// changes.
pub proof fn law_cursor_moves_by_count(
    terminal: TerminalModel,
    groups: Seq<Seq<u16>>,
    marks: Seq<u8>,
    n: int,
)
    requires
        terminal.screen.wf(),
        counts(groups, n),
    ensures
        ({
            let screen = terminal.screen;
            let row = screen.cursor().row as int;
            let col = screen.cursor().col as int;
            let up = after_csi(terminal, groups, marks, 'A');
            let down = after_csi(terminal, groups, marks, 'B');
            let forward = after_csi(terminal, groups, marks, 'C');
            let back = after_csi(terminal, groups, marks, 'D');
            &&& only_moves(screen, up.screen) && same_modes(terminal, up)
            &&& n <= row ==> is_at(up.screen, row - n, col)
            &&& n > row ==> is_at(up.screen, 0, col)
            &&& only_moves(screen, down.screen) && same_modes(terminal, down)
            &&& row + n < screen.rows ==> is_at(down.screen, row + n, col)
            &&& row + n >= screen.rows ==> is_at(down.screen, screen.rows - 1, col)
            &&& only_moves(screen, forward.screen) && same_modes(terminal, forward)
            &&& col + n < screen.cols ==> is_at(forward.screen, row, col + n)
            &&& col + n >= screen.cols ==> is_at(forward.screen, row, screen.cols - 1)
            &&& only_moves(screen, back.screen) && same_modes(terminal, back)
            &&& n <= col ==> is_at(back.screen, row, col - n)
            &&& n > col ==> is_at(back.screen, row, 0)
        }),
{
    reveal(cursor_control);
    lemma_screen_csi(terminal, groups, marks, 'A');
    lemma_screen_csi(terminal, groups, marks, 'B');
    lemma_screen_csi(terminal, groups, marks, 'C');
    lemma_screen_csi(terminal, groups, marks, 'D');
}

/// Moving to the next or the previous lines goes as many rows as the sequence counts,
/// stops at the edge of the screen, and ends in the first column.
pub proof fn law_cursor_moves_to_lines(
    terminal: TerminalModel,
    groups: Seq<Seq<u16>>,
    marks: Seq<u8>,
    n: int,
)
    requires
        terminal.screen.wf(),
        counts(groups, n),
    ensures
        ({
            let screen = terminal.screen;
            let row = screen.cursor().row as int;
            let next = after_csi(terminal, groups, marks, 'E');
            let previous = after_csi(terminal, groups, marks, 'F');
            &&& only_moves(screen, next.screen) && same_modes(terminal, next)
            &&& row + n < screen.rows ==> is_at(next.screen, row + n, 0)
            &&& row + n >= screen.rows ==> is_at(next.screen, screen.rows - 1, 0)
            &&& only_moves(screen, previous.screen) && same_modes(terminal, previous)
            &&& n <= row ==> is_at(previous.screen, row - n, 0)
            &&& n > row ==> is_at(previous.screen, 0, 0)
        }),
{
    reveal(cursor_control);
    lemma_screen_csi(terminal, groups, marks, 'E');
    lemma_screen_csi(terminal, groups, marks, 'F');
}

/// Going to a column or to a row counts from one, and stops at the last one.
pub proof fn law_cursor_goes_to_column_or_row(
    terminal: TerminalModel,
    groups: Seq<Seq<u16>>,
    marks: Seq<u8>,
    n: int,
)
    requires
        terminal.screen.wf(),
        counts(groups, n),
    ensures
        ({
            let screen = terminal.screen;
            let row = screen.cursor().row as int;
            let col = screen.cursor().col as int;
            let column = after_csi(terminal, groups, marks, 'G');
            let line = after_csi(terminal, groups, marks, 'd');
            &&& only_moves(screen, column.screen) && same_modes(terminal, column)
            &&& n <= screen.cols ==> is_at(column.screen, row, n - 1)
            &&& n > screen.cols ==> is_at(column.screen, row, screen.cols - 1)
            &&& only_moves(screen, line.screen) && same_modes(terminal, line)
            &&& n <= screen.rows ==> is_at(line.screen, n - 1, col)
            &&& n > screen.rows ==> is_at(line.screen, screen.rows - 1, col)
        }),
{
    reveal(cursor_control);
    lemma_screen_csi(terminal, groups, marks, 'G');
    lemma_screen_csi(terminal, groups, marks, 'd');
}

/// Whether a place counted from one, where zero counts as one, is this row or column
/// of `size`, or the last one if there are fewer.
pub open spec fn is_place(at: usize, number: int, size: usize) -> bool {
    &&& number == 0 ==> at == 0
    &&& 1 <= number <= size ==> at == number - 1
    &&& number > size ==> at == size - 1
}

/// Going to a place takes the row first and then the column, both counted from one;
/// one that is missing is the first.
pub proof fn law_cursor_goes_to_place(
    terminal: TerminalModel,
    groups: Seq<Seq<u16>>,
    marks: Seq<u8>,
    action: char,
    row: int,
    col: int,
)
    requires
        terminal.screen.wf(),
        action == 'H' || action == 'f',
        begins_with(groups, row),
        goes_on_with(groups, col) || (groups.len() == 1 && col == 1),
    ensures
        ({
            let screen = terminal.screen;
            let after = after_csi(terminal, groups, marks, action);
            &&& only_moves(screen, after.screen) && same_modes(terminal, after)
            &&& is_place(after.screen.cursor().row, row, screen.rows)
            &&& is_place(after.screen.cursor().col, col, screen.cols)
        }),
{
    reveal(cursor_control);
    lemma_screen_csi(terminal, groups, marks, action);
    let values = values_of(groups);
    assert(values[0] == row);
    if groups.len() > 1 {
        assert(values[1] == col);
    }
}

/// Moves undo each other where they do not meet an edge.
pub proof fn law_opposite_moves_cancel(
    terminal: TerminalModel,
    groups: Seq<Seq<u16>>,
    marks: Seq<u8>,
    n: int,
)
    requires
        terminal.screen.wf(),
        counts(groups, n),
    ensures
        ({
            let screen = terminal.screen;
            let cursor = screen.cursor();
            let up = after_csi(terminal, groups, marks, 'A');
            let down = after_csi(terminal, groups, marks, 'B');
            let forward = after_csi(terminal, groups, marks, 'C');
            let back = after_csi(terminal, groups, marks, 'D');
            &&& n <= cursor.row ==> after_csi(up, groups, marks, 'B').screen.cursor() == cursor
            &&& cursor.row + n < screen.rows ==> after_csi(
                down,
                groups,
                marks,
                'A',
            ).screen.cursor() == cursor
            &&& cursor.col + n < screen.cols ==> after_csi(
                forward,
                groups,
                marks,
                'D',
            ).screen.cursor() == cursor
            &&& n <= cursor.col ==> after_csi(back, groups, marks, 'C').screen.cursor() == cursor
        }),
{
    law_cursor_moves_by_count(terminal, groups, marks, n);
    let up = after_csi(terminal, groups, marks, 'A');
    let down = after_csi(terminal, groups, marks, 'B');
    let forward = after_csi(terminal, groups, marks, 'C');
    let back = after_csi(terminal, groups, marks, 'D');
    law_cursor_moves_by_count(up, groups, marks, n);
    law_cursor_moves_by_count(down, groups, marks, n);
    law_cursor_moves_by_count(forward, groups, marks, n);
    law_cursor_moves_by_count(back, groups, marks, n);
}

/// A carriage return goes to the first column, a backspace one column back if there is
/// one, and a tab to the next multiple of eight or to the last column.
pub proof fn law_layout_characters_move_the_cursor(terminal: TerminalModel)
    requires
        terminal.screen.wf(),
    ensures
        ({
            let screen = terminal.screen;
            let row = screen.cursor().row as int;
            let col = screen.cursor().col as int;
            let start = terminal.dispatched(DispatchModel::Execute(0x0d));
            let back = terminal.dispatched(DispatchModel::Execute(0x08));
            let tab = terminal.dispatched(DispatchModel::Execute(0x09));
            &&& only_moves(screen, start.screen) && same_modes(terminal, start)
            &&& is_at(start.screen, row, 0)
            &&& only_moves(screen, back.screen) && same_modes(terminal, back)
            &&& col > 0 ==> is_at(back.screen, row, col - 1)
            &&& col == 0 ==> is_at(back.screen, row, 0)
            &&& only_moves(screen, tab.screen) && same_modes(terminal, tab)
            &&& tab.screen.cursor().row == row
            &&& tab.screen.cursor().col % 8 == 0 || tab.screen.cursor().col == screen.cols - 1
            &&& col < tab.screen.cursor().col <= col + 8 || (col == screen.cols - 1 && is_at(
                tab.screen,
                row,
                col,
            ))
            &&& forall|c: int| col < c < tab.screen.cursor().col ==> #[trigger] (c % 8) != 0
        }),
{
    lemma_after_execute(terminal, 0x0d);
    lemma_after_execute(terminal, 0x08);
    lemma_after_execute(terminal, 0x09);
    law_tab_goes_to_next_multiple_of_eight(terminal.screen);
    let screen = terminal.screen;
    let col = screen.cursor().col as int;
    let tab = terminal.dispatched(DispatchModel::Execute(0x09));
    assert forall|c: int| col < c < tab.screen.cursor().col implies #[trigger] (c % 8) != 0 by {
        assert(c < (col / 8 + 1) * 8);
        assert(c >= col / 8 * 8 + 1);
    }
}

} // verus!

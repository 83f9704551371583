//! Which rows are drawn again: those that changed, and no others.

use vstd::prelude::*;

use crate::laws::erasing::asks_for;
use crate::laws::frames::{
    after_csi, counts, lemma_screen_csi, lemma_after_escape, lemma_after_execute, lemma_after_print,
};
use crate::laws::printing::is_wide;
use crate::parser::{
    cursor_control, edit_control, erase_control, is_cursor_control, scroll_control, values_of,
    TerminalModel,
};
use crate::screen::model::ScreenModel;
use crate::screen::width::{columns, unicode_char_width};
use crate::vt::DispatchModel;

verus! {

/// Whether the rows `from..to` are marked now, and otherwise those that were before.
pub open spec fn newly_marks(before: ScreenModel, after: ScreenModel, from: int, to: int) -> bool {
    &&& after.dirty.len() == before.dirty.len()
    &&& forall|r: int|
        0 <= r < before.dirty.len() ==> #[trigger] after.dirty[r] == (before.dirty[r] || from <= r
            < to)
}

/// Whether one row is marked now, and otherwise those that were before.
pub open spec fn newly_marks_row(before: ScreenModel, after: ScreenModel, row: int) -> bool {
    newly_marks(before, after, row, row + 1)
}

/// Marking some rows marks these and no others, and changes nothing else.
pub proof fn law_marking_marks_rows(screen: ScreenModel, from: int, to: int)
    ensures
        newly_marks(screen, screen.marked(from, to), from, to),
        screen.marked(from, to) == (ScreenModel { dirty: screen.marked(from, to).dirty, ..screen }),
        newly_marks(screen, screen.marked_all(), 0, screen.rows as int),
        screen.marked_all() == (ScreenModel { dirty: screen.marked_all().dirty, ..screen }),
{
}

/// A sequence that moves the cursor marks the row that it comes to, and so do carriage
/// return, backspace and tab.
pub proof fn law_moves_mark_the_row(
    terminal: TerminalModel,
    groups: Seq<Seq<u16>>,
    marks: Seq<u8>,
    action: char,
    byte: u8,
)
    requires
        terminal.screen.wf(),
        is_cursor_control(action),
        byte == 0x08 || byte == 0x09 || byte == 0x0d,
    ensures
        ({
            let moved = after_csi(terminal, groups, marks, action).screen;
            let laid = terminal.dispatched(DispatchModel::Execute(byte)).screen;
            &&& newly_marks_row(terminal.screen, moved, moved.cursor().row as int)
            &&& newly_marks_row(terminal.screen, laid, laid.cursor().row as int)
        }),
{
    reveal(cursor_control);
    lemma_screen_csi(terminal, groups, marks, action);
    lemma_after_execute(terminal, byte);
}

/// Erasing and editing within the row of the cursor marks this row. Erasing in the page
/// marks the rows that it reaches.
pub proof fn law_erasing_marks_what_it_reaches(
    terminal: TerminalModel,
    groups: Seq<Seq<u16>>,
    marks: Seq<u8>,
    mode: int,
)
    requires
        terminal.screen.wf(),
        asks_for(groups, mode),
    ensures
        ({
            let before = terminal.screen;
            let row = before.cursor().row as int;
            let page = after_csi(terminal, groups, marks, 'J').screen;
            &&& newly_marks_row(before, after_csi(terminal, groups, marks, 'K').screen, row)
            &&& newly_marks_row(before, after_csi(terminal, groups, marks, 'X').screen, row)
            &&& newly_marks_row(before, after_csi(terminal, groups, marks, '@').screen, row)
            &&& newly_marks_row(before, after_csi(terminal, groups, marks, 'P').screen, row)
            &&& mode == 0 ==> newly_marks(before, page, row, before.rows as int)
            &&& mode == 1 ==> newly_marks(before, page, 0, row + 1)
            &&& mode == 2 || mode == 3 ==> newly_marks(before, page, 0, before.rows as int)
            &&& mode > 3 ==> newly_marks(before, page, 0, 0)
        }),
{
    reveal(erase_control);
    reveal(edit_control);
    lemma_screen_csi(terminal, groups, marks, 'J');
    lemma_screen_csi(terminal, groups, marks, 'K');
    lemma_screen_csi(terminal, groups, marks, 'X');
    lemma_screen_csi(terminal, groups, marks, '@');
    lemma_screen_csi(terminal, groups, marks, 'P');
    let values = values_of(groups);
    assert(values[0] == mode);
}

/// Scrolling marks the rows of the scroll region, and inserting and deleting lines those
/// from the cursor row to its end.
pub proof fn law_scrolling_marks_the_region(
    terminal: TerminalModel,
    groups: Seq<Seq<u16>>,
    marks: Seq<u8>,
    n: int,
)
    requires
        terminal.screen.wf(),
        counts(groups, n),
    ensures
        ({
            let before = terminal.screen;
            let row = before.cursor().row as int;
            let top = before.active().scroll_top as int;
            let bottom = before.active().scroll_bottom as int;
            let up = after_csi(terminal, groups, marks, 'S').screen;
            let down = after_csi(terminal, groups, marks, 'T').screen;
            let more = after_csi(terminal, groups, marks, 'L').screen;
            let less = after_csi(terminal, groups, marks, 'M').screen;
            &&& newly_marks(before, up, top, bottom + 1)
            &&& newly_marks(before, down, top, bottom + 1)
            &&& top <= row <= bottom ==> newly_marks(before, more, row, bottom + 1)
            &&& top <= row <= bottom ==> newly_marks(before, less, row, bottom + 1)
        }),
{
    reveal(scroll_control);
    reveal(edit_control);
    lemma_screen_csi(terminal, groups, marks, 'S');
    lemma_screen_csi(terminal, groups, marks, 'T');
    lemma_screen_csi(terminal, groups, marks, 'L');
    lemma_screen_csi(terminal, groups, marks, 'M');
}

/// A line feed marks the scroll region if it scrolls, else the row that the cursor comes
/// to; a reverse index does the same.
pub proof fn law_line_feeds_mark_what_moves(terminal: TerminalModel)
    requires
        terminal.screen.wf(),
    ensures
        ({
            let before = terminal.screen;
            let top = before.active().scroll_top as int;
            let bottom = before.active().scroll_bottom as int;
            let fed = terminal.dispatched(DispatchModel::Execute(0x0a)).screen;
            let back = terminal.dispatched(DispatchModel::Esc(0x4d)).screen;
            &&& before.cursor().row == bottom ==> newly_marks(before, fed, top, bottom + 1)
            &&& before.cursor().row != bottom ==> newly_marks_row(
                before,
                fed,
                fed.cursor().row as int,
            )
            &&& before.cursor().row == top ==> newly_marks(before, back, top, bottom + 1)
            &&& before.cursor().row != top ==> newly_marks_row(
                before,
                back,
                back.cursor().row as int,
            )
        }),
{
    lemma_after_execute(terminal, 0x0a);
    lemma_after_escape(terminal, 0x4d);
}

/// A character that does not wrap marks the row that it is printed in and no other.
pub proof fn law_printing_marks_its_row(terminal: TerminalModel, ch: char)
    requires
        terminal.screen.wf(),
        terminal.screen.cursor().col + 1 < terminal.screen.cols,
    ensures
        newly_marks_row(
            terminal.screen,
            terminal.dispatched(DispatchModel::Print(ch)).screen,
            terminal.screen.cursor().row as int,
        ),
{
    lemma_after_print(terminal, ch);
    let screen = terminal.screen;
    let width = columns(unicode_char_width(ch));
    let done = screen.stamped(ch, width).advanced(width);
    assert(done.cursor().row == screen.cursor().row);
    assert(done.dirty == screen.dirty);
}

/// A character in the last column that does not scroll marks its row and the row that the
/// cursor comes to.
pub proof fn law_wrapping_marks_both_rows(terminal: TerminalModel, ch: char, r: int)
    requires
        terminal.screen.wf(),
        !is_wide(ch),
        terminal.screen.cursor().col + 1 == terminal.screen.cols,
        terminal.screen.cursor().row != terminal.screen.active().scroll_bottom,
        0 <= r < terminal.screen.rows,
    ensures
        ({
            let before = terminal.screen;
            let after = terminal.dispatched(DispatchModel::Print(ch)).screen;
            after.dirty[r] == (before.dirty[r] || r == before.cursor().row || r
                == after.cursor().row)
        }),
{
    lemma_after_print(terminal, ch);
    let screen = terminal.screen;
    let width = columns(unicode_char_width(ch));
    let done = screen.stamped(ch, width).advanced(width);
    assert(done.dirty == screen.dirty);
}

} // verus!

//! Where a printed character goes and how it looks.

use vstd::prelude::*;

use crate::laws::frames::{
    is_at, is_erased, lemma_after_print, same_frame, same_modes, same_settings,
};
use crate::laws::scrolling::feeds_scrollback;
use crate::laws::typing::{law_continuation_is_flagged, law_flags_show_attributes};
use crate::parser::TerminalModel;
use crate::screen::cell::{AttrState, Cell, CellFlags};
use crate::screen::model::{continuation, keep_last, shifted_up, styled_cell, ScreenModel};
use crate::screen::width::{columns, unicode_char_width};
use crate::vt::DispatchModel;

verus! {

/// Whether a cell has the colours of these attributes, exchanged if they are inverse,
/// and their styles.
pub open spec fn has_style(cell: Cell, attrs: AttrState) -> bool {
    &&& !attrs.inverse ==> cell.fg == attrs.fg && cell.bg == attrs.bg
    &&& attrs.inverse ==> cell.fg == attrs.bg && cell.bg == attrs.fg
    &&& cell.flags.contains(CellFlags::bold()) == attrs.bold
    &&& cell.flags.contains(CellFlags::italic()) == attrs.italic
    &&& cell.flags.contains(CellFlags::underline()) == attrs.underline
    &&& cell.flags.contains(CellFlags::inverse()) == attrs.inverse
}

/// Whether a cell shows a character with these attributes, and is not the right half of
/// a wide one.
pub open spec fn shows(cell: Cell, ch: char, attrs: AttrState) -> bool {
    &&& cell.ch == ch
    &&& has_style(cell, attrs)
    &&& !cell.flags.contains(CellFlags::wide_cont())
}

/// Whether a cell is the right half of a wide character with these attributes.
pub open spec fn is_right_half(cell: Cell, attrs: AttrState) -> bool {
    &&& cell.ch == ' '
    &&& has_style(cell, attrs)
    &&& cell.flags.contains(CellFlags::wide_cont())
}

proof fn lemma_shows(ch: char, attrs: AttrState)
    ensures
        shows(styled_cell(ch, attrs), ch, attrs),
        is_right_half(continuation(styled_cell(ch, attrs)), attrs),
{
    law_flags_show_attributes(attrs);
    law_continuation_is_flagged(styled_cell(ch, attrs));
    let bits = styled_cell(ch, attrs).flags.bits;
    assert((bits | 32) & 1 == bits & 1 && (bits | 32) & 2 == bits & 2 && (bits | 32) & 4 == bits & 4
        && (bits | 32) & 8 == bits & 8) by (bit_vector);
}

/// Whether nothing but the shown lines, the place of the cursor, the scrollback and the
/// marks may differ.
pub open spec fn only_prints(before: ScreenModel, after: ScreenModel) -> bool {
    &&& same_frame(before, after)
    &&& same_settings(before.active(), after.active())
    &&& after.attrs() == before.attrs()
    &&& after.cursor().visible == before.cursor().visible
    &&& after.cursor().shape == before.cursor().shape
    &&& after.active().lines.len() == before.active().lines.len()
}

/// Whether a character is two columns wide.
pub open spec fn is_wide(ch: char) -> bool {
    unicode_char_width(ch) == Some(2usize)
}

/// A character that is not wide is shown at the cursor with the current attributes, and
/// no other cell changes. The cursor goes to the next column. From the last column it
/// goes to the start of the next row, if there is one, and in the last row of the scroll
/// region the region goes up by one row, together with the character.
pub proof fn law_narrow_character_is_printed(terminal: TerminalModel, ch: char, r: int, c: int)
    requires
        terminal.screen.wf(),
        !is_wide(ch),
        0 <= r < terminal.screen.rows,
        0 <= c < terminal.screen.cols,
    ensures
        ({
            let before = terminal.screen;
            let after = terminal.dispatched(DispatchModel::Print(ch));
            let row = before.cursor().row as int;
            let col = before.cursor().col as int;
            let top = before.active().scroll_top as int;
            let bottom = before.active().scroll_bottom as int;
            let old_lines = before.active().lines;
            let cell = after.screen.active().lines[r][c];
            let scrolls = col + 1 == before.cols && row == bottom;
            &&& only_prints(before, after.screen) && same_modes(terminal, after)
            &&& col + 1 < before.cols ==> is_at(after.screen, row, col + 1)
            &&& col + 1 == before.cols && row != bottom && row + 1 < before.rows ==> is_at(
                after.screen,
                row + 1,
                0,
            )
            &&& col + 1 == before.cols && (row == bottom || row + 1 == before.rows) ==> is_at(
                after.screen,
                row,
                0,
            )
            &&& !scrolls ==> {
                &&& r == row && c == col ==> shows(cell, ch, before.attrs())
                &&& !(r == row && c == col) ==> cell == old_lines[r][c]
                &&& after.screen.scrollback == before.scrollback
            }
            &&& scrolls ==> {
                &&& r < top || bottom < r ==> cell == old_lines[r][c]
                &&& top <= r < bottom && r + 1 == row && c == col ==> shows(
                    cell,
                    ch,
                    before.attrs(),
                )
                &&& top <= r < bottom && !(r + 1 == row && c == col) ==> cell
                    == old_lines[r + 1][c]
                &&& r == bottom ==> is_erased(cell)
                &&& !feeds_scrollback(before) ==> after.screen.scrollback == before.scrollback
                &&& feeds_scrollback(before) ==> {
                    &&& after.screen.scrollback.len() > 0
                    &&& after.screen.scrollback.len() == before.scrollback.len() + 1 || (
                    before.scrollback.len() == before.scrollback_cap
                        && after.screen.scrollback.len() == before.scrollback_cap)
                    &&& row == 0 && c == col ==> shows(
                        after.screen.scrollback.last()[c],
                        ch,
                        before.attrs(),
                    )
                    &&& !(row == 0 && c == col) ==> after.screen.scrollback.last()[c]
                        == old_lines[0][c]
                }
            }
        }),
{
    let before = terminal.screen;
    lemma_after_print(terminal, ch);
    lemma_shows(ch, before.attrs());
    let width = columns(unicode_char_width(ch));
    let written = before.stamped(ch, width);
    let done = written.advanced(width);
    let row = before.cursor().row as int;
    let col = before.cursor().col as int;
    assert(width != 2);
    assert(written.active().lines == before.active().lines.update(
        row,
        before.active().cursor_line().update(col, styled_cell(ch, before.attrs())),
    ));
    let after = terminal.dispatched(DispatchModel::Print(ch)).screen;
    assert(after.active().lines == done.active().lines);
    if col + 1 == before.cols && row == before.active().scroll_bottom {
        let top = before.active().scroll_top as int;
        assert(done.active().lines == shifted_up(
            written.active().lines,
            top,
            row,
            1,
            before.cols as int,
        ));
        if feeds_scrollback(before) {
            assert(written.active().lines.take(1)[0] == written.active().lines[0]);
            assert(after.scrollback == keep_last(
                before.scrollback + written.active().lines.take(1),
                before.scrollback_cap as int,
            ));
        }
    }
}

/// A wide character with two columns left takes both: the character in the first and its
/// right half in the second, with the current attributes. No other cell changes, and the
/// cursor goes behind it or stays in the last column.
pub proof fn law_wide_character_is_printed(terminal: TerminalModel, ch: char, r: int, c: int)
    requires
        terminal.screen.wf(),
        is_wide(ch),
        terminal.screen.cursor().col + 1 < terminal.screen.cols,
        0 <= r < terminal.screen.rows,
        0 <= c < terminal.screen.cols,
    ensures
        ({
            let before = terminal.screen;
            let after = terminal.dispatched(DispatchModel::Print(ch));
            let row = before.cursor().row as int;
            let col = before.cursor().col as int;
            let cell = after.screen.active().lines[r][c];
            &&& only_prints(before, after.screen) && same_modes(terminal, after)
            &&& after.screen.scrollback == before.scrollback
            &&& r == row && c == col ==> shows(cell, ch, before.attrs())
            &&& r == row && c == col + 1 ==> is_right_half(cell, before.attrs())
            &&& !(r == row && (c == col || c == col + 1)) ==> cell
                == before.active().lines[r][c]
            &&& col + 2 < before.cols ==> is_at(after.screen, row, col + 2)
            &&& col + 2 == before.cols ==> is_at(after.screen, row, col + 1)
        }),
{
    lemma_after_print(terminal, ch);
    lemma_shows(ch, terminal.screen.attrs());
}

/// On a screen of a single column a wide character has no room for its right half: where
/// nothing scrolls, the cell of the next row shows it alone, and the cursor goes on to the
/// row behind that.
pub proof fn law_wide_character_in_one_column(terminal: TerminalModel, ch: char)
    requires
        terminal.screen.wf(),
        is_wide(ch),
        terminal.screen.cols == 1,
        terminal.screen.cursor().row + 2 < terminal.screen.active().scroll_bottom,
    ensures
        ({
            let before = terminal.screen;
            let after = terminal.dispatched(DispatchModel::Print(ch));
            let row = before.cursor().row as int;
            &&& only_prints(before, after.screen) && same_modes(terminal, after)
            &&& is_at(after.screen, row + 2, 0)
            &&& shows(after.screen.active().lines[row + 1][0], ch, before.attrs())
            &&& forall|r: int|
                0 <= r < before.rows && r != row + 1 ==> #[trigger] after.screen.active().lines[r]
                    == before.active().lines[r]
        }),
{
    let before = terminal.screen;
    lemma_after_print(terminal, ch);
    lemma_shows(ch, before.attrs());
    lemma_wrapped(before);
    let start = before.wrapped();
    let written = start.stamped(ch, 2);
    assert(written.active().lines == start.active().lines.update(
        start.cursor().row as int,
        start.active().cursor_line().update(0, styled_cell(ch, before.attrs())),
    ));
    assert(written.advanced(2) == written.wrapped());
}

/// The screen from which a character is printed that did not fit in its row.
proof fn lemma_wrapped(before: ScreenModel)
    requires
        before.wf(),
    ensures
        ({
            let start = before.wrapped();
            let row = before.cursor().row as int;
            let top = before.active().scroll_top as int;
            let bottom = before.active().scroll_bottom as int;
            &&& start.wf()
            &&& only_prints(before, start)
            &&& row != bottom && row + 1 < before.rows ==> is_at(start, row + 1, 0)
            &&& row == bottom || row + 1 == before.rows ==> is_at(start, row, 0)
            &&& row != bottom ==> start.active().lines == before.active().lines
                && start.scrollback == before.scrollback
            &&& row == bottom ==> start.active().lines == shifted_up(
                before.active().lines,
                top,
                bottom,
                1,
                before.cols as int,
            )
            &&& row == bottom && !feeds_scrollback(before) ==> start.scrollback
                == before.scrollback
            &&& row == bottom && feeds_scrollback(before) ==> start.scrollback.len() > 0
                && start.scrollback.last() == before.active().lines[0]
        }),
{
    if before.cursor().row == before.active().scroll_bottom && feeds_scrollback(before) {
        assert(before.active().lines.take(1)[0] == before.active().lines[0]);
        assert(before.wrapped().scrollback == keep_last(
            before.scrollback + before.active().lines.take(1),
            before.scrollback_cap as int,
        ));
    }
}

/// A wide character that finds only the last column left leaves it alone and goes to the
/// start of the next row, if there is one, as it would do from there. In the last row of
/// the scroll region the region goes up by one row before.
pub proof fn law_wide_character_wraps(terminal: TerminalModel, ch: char, r: int, c: int)
    requires
        terminal.screen.wf(),
        is_wide(ch),
        terminal.screen.cols >= 2,
        terminal.screen.cursor().col + 1 == terminal.screen.cols,
        0 <= r < terminal.screen.rows,
        0 <= c < terminal.screen.cols,
    ensures
        ({
            let before = terminal.screen;
            let after = terminal.dispatched(DispatchModel::Print(ch));
            let row = before.cursor().row as int;
            let top = before.active().scroll_top as int;
            let bottom = before.active().scroll_bottom as int;
            let old_lines = before.active().lines;
            let cell = after.screen.active().lines[r][c];
            let scrolls = row == bottom;
            let target = if !scrolls && row + 1 < before.rows {
                row + 1
            } else {
                row
            };
            &&& only_prints(before, after.screen) && same_modes(terminal, after)
            &&& r == target && c == 0 ==> shows(cell, ch, before.attrs())
            &&& r == target && c == 1 ==> is_right_half(cell, before.attrs())
            &&& !scrolls && !(r == target && c < 2) ==> cell == old_lines[r][c]
            &&& scrolls && (r < top || bottom < r) ==> cell == old_lines[r][c]
            &&& scrolls && top <= r < bottom ==> cell == old_lines[r + 1][c]
            &&& scrolls && r == bottom && c >= 2 ==> is_erased(cell)
            &&& !(scrolls && feeds_scrollback(before)) ==> after.screen.scrollback
                == before.scrollback
            &&& scrolls && feeds_scrollback(before) ==> after.screen.scrollback.last()
                == old_lines[0]
            &&& before.cols > 2 ==> is_at(after.screen, target, 2)
            &&& before.cols == 2 ==> is_at(after.screen, target, 1)
        }),
{
    let before = terminal.screen;
    let start = before.wrapped();
    let begun = terminal.with_screen(start);
    lemma_wrapped(before);
    lemma_after_print(terminal, ch);
    lemma_after_print(begun, ch);
    assert(before.needs_wrap(2) && !start.needs_wrap(2));
    assert(before.printed(ch, 2) == start.printed(ch, 2));
    law_wide_character_is_printed(begun, ch, r, c);
}

} // verus!

//! What every piece of output keeps: the screen stays valid, changed rows are
//! marked, and the page that is not shown is left alone.

use vstd::prelude::*;

use crate::parser::{
    count_of, cursor_control, cursor_target, edit_control, erase_control, is_cursor_control,
    is_edit_control, is_erase_control, is_scroll_control, is_style_control, renditions,
    screen_after, screen_escaped, screen_executed, screen_in_mode, scroll_control, shape_of,
    style_control, value_or, values_of, TerminalModel,
};
use crate::screen::cell::{Cell, Cursor};
use crate::screen::model::{
    closed_up, effective, erased, erased_lines, keep_last, min, minus, next_tabstop, opened_up,
    shifted_down, shifted_up, BufferModel, ScreenModel,
};
use crate::screen::width::{columns, unicode_char_width};
use crate::vt::DispatchModel;

verus! {

/// The same size, both screens valid, and no mark lost.
pub open spec fn stays_valid(before: ScreenModel, after: ScreenModel) -> bool {
    &&& after.wf()
    &&& after.cols == before.cols
    &&& after.rows == before.rows
    &&& after.scrollback_cap == before.scrollback_cap
    &&& forall|r: int| 0 <= r < before.rows && before.dirty[r] ==> #[trigger] after.dirty[r]
}

/// Every shown row that is different is marked.
pub open spec fn marks_changes(before: ScreenModel, after: ScreenModel) -> bool {
    forall|r: int|
        0 <= r < before.rows && #[trigger] after.active().lines[r] != before.active().lines[r]
            ==> after.dirty[r]
}

/// The same page is shown and the other one is as it was. The lines that
/// scrolled off belong to the primary page.
pub open spec fn stays_on_page(before: ScreenModel, after: ScreenModel) -> bool {
    &&& after.use_alternate == before.use_alternate
    &&& before.use_alternate ==> after.primary == before.primary && after.scrollback
        == before.scrollback
    &&& !before.use_alternate ==> after.alternate == before.alternate
}

/// A step that works on the shown page alone.
pub open spec fn edits(before: ScreenModel, after: ScreenModel) -> bool {
    &&& stays_valid(before, after)
    &&& marks_changes(before, after)
    &&& stays_on_page(before, after)
}

proof fn lemma_edits_in_turn(a: ScreenModel, b: ScreenModel, c: ScreenModel)
    requires
        edits(a, b),
        edits(b, c),
    ensures
        edits(a, c),
{
    assert forall|r: int| 0 <= r < a.rows && a.dirty[r] implies #[trigger] c.dirty[r] by {
        assert(b.dirty[r]);
    }
    assert forall|r: int|
        0 <= r < a.rows && #[trigger] c.active().lines[r]
            != a.active().lines[r] implies c.dirty[r] by {
        if b.active().lines[r] != a.active().lines[r] {
            assert(b.dirty[r]);
        }
    }
}

/// Marking rows is a step of its own.
proof fn lemma_marked(screen: ScreenModel, from: int, to: int)
    requires
        screen.wf(),
    ensures
        edits(screen, screen.marked(from, to)),
{
}

/// Some rows replaced and marked.
proof fn lemma_rows_replaced(screen: ScreenModel, lines: Seq<Seq<Cell>>, from: int, to: int)
    requires
        screen.wf(),
        lines.len() == screen.rows,
        forall|r: int| 0 <= r < screen.rows ==> (#[trigger] lines[r]).len() == screen.cols,
        forall|r: int|
            0 <= r < screen.rows && !(from <= r < to) ==> #[trigger] lines[r]
                == screen.active().lines[r],
    ensures
        edits(screen, screen.with_lines(lines).marked(from, to)),
{
}

/// The cursor line replaced and marked.
proof fn lemma_line_replaced(screen: ScreenModel, line: Seq<Cell>)
    requires
        screen.wf(),
        line.len() == screen.cols,
    ensures
        edits(screen, screen.with_edited_line(line)),
{
}

/// The cursor, the attributes or the scroll region replaced.
proof fn lemma_state_replaced(screen: ScreenModel, page: BufferModel)
    requires
        screen.wf(),
        page.wf(screen.cols as int, screen.rows as int),
        page.lines == screen.active().lines,
    ensures
        edits(screen, screen.with_active(page)),
{
}

proof fn lemma_moved(screen: ScreenModel, row: int, col: int)
    requires
        screen.wf(),
        0 <= row < screen.rows,
        0 <= col < screen.cols,
    ensures
        edits(screen, screen.moved_to(row, col)),
{
    let page = BufferModel { cursor: screen.cursor().at(row, col), ..screen.active() };
    lemma_state_replaced(screen, page);
    let moved = screen.with_active(page);
    lemma_marked(moved, row, row + 1);
    lemma_edits_in_turn(screen, moved, moved.marked_row(row));
}

proof fn lemma_scrolled_up(screen: ScreenModel, n: int, top: int, bottom: int)
    requires
        screen.wf(),
        0 <= top <= bottom < screen.rows,
    ensures
        edits(screen, screen.scrolled_up(n, top, bottom)),
{
    let count = effective(n, bottom - top + 1);
    let lines = shifted_up(screen.active().lines, top, bottom, count, screen.cols as int);
    lemma_rows_replaced(screen, lines, top, bottom + 1);
    assert(keep_last(
        screen.scrollback + screen.active().lines.take(count),
        screen.scrollback_cap as int,
    ).len() <= screen.scrollback_cap);
}

proof fn lemma_scrolled_down(screen: ScreenModel, n: int, top: int, bottom: int)
    requires
        screen.wf(),
        0 <= top <= bottom < screen.rows,
    ensures
        edits(screen, screen.scrolled_down(n, top, bottom)),
{
    let count = effective(n, bottom - top + 1);
    let lines = shifted_down(screen.active().lines, top, bottom, count, screen.cols as int);
    lemma_rows_replaced(screen, lines, top, bottom + 1);
}

proof fn lemma_line_fed(screen: ScreenModel)
    requires
        screen.wf(),
    ensures
        edits(screen, screen.line_fed()),
{
    let page = screen.active();
    if page.cursor.row == page.scroll_bottom {
        lemma_scrolled_up(screen, 1, page.scroll_top as int, page.scroll_bottom as int);
    } else {
        lemma_moved(screen, min(page.cursor.row + 1, screen.rows - 1), page.cursor.col as int);
    }
}

proof fn lemma_reverse_indexed(screen: ScreenModel)
    requires
        screen.wf(),
    ensures
        edits(screen, screen.reverse_indexed()),
{
    let page = screen.active();
    if page.cursor.row == page.scroll_top {
        lemma_scrolled_down(screen, 1, page.scroll_top as int, page.scroll_bottom as int);
    } else {
        lemma_moved(screen, minus(page.cursor.row as int, 1), page.cursor.col as int);
    }
}

/// The next tab stop lies behind the column it is looked for from.
proof fn lemma_next_tabstop(tabstops: Seq<bool>, col: int)
    requires
        0 <= col,
    ensures
        col <= next_tabstop(tabstops, col) || next_tabstop(tabstops, col) == tabstops.len(),
        next_tabstop(tabstops, col) <= tabstops.len(),
        0 <= next_tabstop(tabstops, col),
    decreases tabstops.len() - col,
{
    if col < tabstops.len() && !tabstops[col] {
        lemma_next_tabstop(tabstops, col + 1);
    }
}

proof fn lemma_executed(screen: ScreenModel, byte: u8)
    requires
        screen.wf(),
    ensures
        edits(screen, screen_executed(screen, byte)),
{
    let cursor = screen.cursor();
    if byte == 0x0a || byte == 0x0b || byte == 0x0c {
        lemma_line_fed(screen);
    } else if byte == 0x0d {
        lemma_moved(screen, cursor.row as int, 0);
    } else if byte == 0x08 {
        lemma_moved(screen, cursor.row as int, minus(cursor.col as int, 1));
    } else if byte == 0x09 {
        let stop = next_tabstop(screen.active().tabstops, cursor.col + 1);
        lemma_next_tabstop(screen.active().tabstops, cursor.col + 1);
        lemma_moved(screen, cursor.row as int, min(stop, screen.cols - 1));
    }
}

proof fn lemma_rows_erased(screen: ScreenModel, from: int, to: int)
    requires
        screen.wf(),
    ensures
        edits(screen, screen.rows_erased(from, to)),
        screen.rows_erased(from, to).cursor() == screen.cursor(),
{
    let lines = erased_lines(screen.active().lines, from, to, screen.cols as int);
    lemma_rows_replaced(screen, lines, from, to);
}

proof fn lemma_line_erased(screen: ScreenModel, mode: int)
    requires
        screen.wf(),
    ensures
        edits(screen, screen.line_erased(mode)),
        screen.line_erased(mode).cursor() == screen.cursor(),
{
    let line = screen.active().cursor_line();
    let col = screen.cursor().col as int;
    let cols = screen.cols as int;
    lemma_line_replaced(
        screen,
        if mode == 0 {
            erased(line, col, cols)
        } else if mode == 1 {
            erased(line, 0, col + 1)
        } else if mode == 2 {
            erased(line, 0, cols)
        } else {
            line
        },
    );
}

proof fn lemma_display_erased(screen: ScreenModel, mode: int)
    requires
        screen.wf(),
    ensures
        edits(screen, screen.display_erased(mode)),
{
    let row = screen.cursor().row as int;
    if mode == 0 || mode == 1 {
        let middle = screen.line_erased(mode);
        lemma_line_erased(screen, mode);
        let (from, to) = if mode == 0 {
            (row + 1, screen.rows as int)
        } else {
            (0, row)
        };
        lemma_rows_erased(middle, from, to);
        lemma_edits_in_turn(screen, middle, middle.rows_erased(from, to));
    } else if mode == 2 || mode == 3 {
        lemma_rows_erased(screen, 0, screen.rows as int);
    }
}

proof fn lemma_erase_control(screen: ScreenModel, groups: Seq<Seq<u16>>, action: char)
    requires
        screen.wf(),
        is_erase_control(action),
    ensures
        edits(screen, erase_control(screen, groups, action)),
{
    reveal(erase_control);
    let mode = value_or(values_of(groups), 0, 0) as int;
    if action == 'J' {
        lemma_display_erased(screen, mode);
    } else if action == 'K' {
        lemma_line_erased(screen, mode);
    } else {
        let col = screen.cursor().col as int;
        let count = effective(count_of(groups), screen.cols - col);
        lemma_line_replaced(screen, erased(screen.active().cursor_line(), col, col + count));
    }
}

proof fn lemma_edit_control(screen: ScreenModel, groups: Seq<Seq<u16>>, action: char)
    requires
        screen.wf(),
        is_edit_control(action),
    ensures
        edits(screen, edit_control(screen, groups, action)),
{
    reveal(edit_control);
    let n = count_of(groups);
    let page = screen.active();
    let row = page.cursor.row as int;
    let bottom = page.scroll_bottom as int;
    let col = page.cursor.col as int;
    let in_region = page.scroll_top <= page.cursor.row <= page.scroll_bottom;
    let count = effective(n, screen.cols - col);
    if action == 'L' {
        if in_region {
            lemma_scrolled_down(screen, n, row, bottom);
        }
    } else if action == 'M' {
        if in_region {
            let gone = effective(n, bottom - row + 1);
            let lines = shifted_up(page.lines, row, bottom, gone, screen.cols as int);
            lemma_rows_replaced(screen, lines, row, bottom + 1);
        }
    } else if action == '@' {
        lemma_line_replaced(screen, opened_up(page.cursor_line(), col, count));
    } else {
        lemma_line_replaced(screen, closed_up(page.cursor_line(), col, count));
    }
}

proof fn lemma_scroll_control(screen: ScreenModel, groups: Seq<Seq<u16>>, action: char)
    requires
        screen.wf(),
        is_scroll_control(action),
    ensures
        edits(screen, scroll_control(screen, groups, action)),
{
    reveal(scroll_control);
    let n = count_of(groups);
    let page = screen.active();
    if action == 'S' {
        lemma_scrolled_up(screen, n, page.scroll_top as int, page.scroll_bottom as int);
    } else if action == 'T' {
        lemma_scrolled_down(screen, n, page.scroll_top as int, page.scroll_bottom as int);
    } else {
        let values = values_of(groups);
        let first = value_or(values, 0, 1);
        let last = value_or(values, 1, (screen.rows % 0x10000) as u16);
        let top = min(minus(first as int, 1), screen.rows - 1);
        let bottom = min(minus(last as int, 1), screen.rows - 1);
        let whole = BufferModel {
            scroll_top: 0,
            scroll_bottom: (screen.rows - 1) as usize,
            ..page
        };
        let part = BufferModel {
            scroll_top: top as usize,
            scroll_bottom: bottom as usize,
            cursor: page.cursor.at(top, 0),
            ..page
        };
        if first == 0 && last == 0 {
            lemma_state_replaced(screen, whole);
        } else if top < bottom {
            lemma_state_replaced(screen, part);
            let set = screen.with_active(part);
            lemma_marked(set, 0, screen.rows as int);
            lemma_edits_in_turn(screen, set, set.marked_all());
        }
    }
}

proof fn lemma_restored(screen: ScreenModel)
    requires
        screen.wf(),
    ensures
        edits(screen, screen.with_restored_cursor()),
{
    let page = screen.active();
    let restored = BufferModel { cursor: page.saved_cursor, attrs: page.saved_attrs, ..page };
    lemma_state_replaced(screen, restored);
    let done = screen.with_active(restored);
    let row = page.saved_cursor.row as int;
    lemma_marked(done, row, row + 1);
    lemma_edits_in_turn(screen, done, done.marked_row(row));
}

proof fn lemma_saved(screen: ScreenModel)
    requires
        screen.wf(),
    ensures
        edits(screen, screen.with_saved_cursor()),
{
    let page = screen.active();
    lemma_state_replaced(
        screen,
        BufferModel { saved_cursor: page.cursor, saved_attrs: page.attrs, ..page },
    );
}

/// The look of the cursor changed and its row marked.
proof fn lemma_cursor_restyled(screen: ScreenModel, cursor: Cursor)
    requires
        screen.wf(),
        cursor.row == screen.cursor().row,
        cursor.col == screen.cursor().col,
    ensures
        edits(screen, screen.with_cursor(cursor).marked_row(screen.cursor().row as int)),
{
    let page = BufferModel { cursor: cursor, ..screen.active() };
    lemma_state_replaced(screen, page);
    let done = screen.with_active(page);
    let row = screen.cursor().row as int;
    lemma_marked(done, row, row + 1);
    lemma_edits_in_turn(screen, done, done.marked_row(row));
}

proof fn lemma_style_control(
    screen: ScreenModel,
    groups: Seq<Seq<u16>>,
    intermediates: Seq<u8>,
    action: char,
)
    requires
        screen.wf(),
        is_style_control(action),
    ensures
        edits(screen, style_control(screen, groups, intermediates, action)),
{
    reveal(style_control);
    let values = values_of(groups);
    if action == 'm' {
        let page = BufferModel {
            attrs: renditions(screen.attrs(), values),
            ..screen.active()
        };
        lemma_state_replaced(screen, page);
    } else if action == 'q' {
        let shape = shape_of(value_or(values, 0, 0));
        lemma_cursor_restyled(screen, Cursor { shape: shape, ..screen.cursor() });
    } else if action == 's' {
        lemma_saved(screen);
    } else {
        lemma_restored(screen);
    }
}

proof fn lemma_cursor_control(screen: ScreenModel, groups: Seq<Seq<u16>>, action: char)
    requires
        screen.wf(),
        is_cursor_control(action),
    ensures
        edits(screen, cursor_control(screen, groups, action)),
{
    reveal(cursor_control);
    let target = cursor_target(screen, groups, action);
    lemma_moved(screen, target.0, target.1);
}

proof fn lemma_screen_after(
    screen: ScreenModel,
    groups: Seq<Seq<u16>>,
    intermediates: Seq<u8>,
    action: char,
)
    requires
        screen.wf(),
    ensures
        edits(screen, screen_after(screen, groups, intermediates, action)),
{
    if is_cursor_control(action) {
        lemma_cursor_control(screen, groups, action);
    } else if is_erase_control(action) {
        lemma_erase_control(screen, groups, action);
    } else if is_edit_control(action) {
        lemma_edit_control(screen, groups, action);
    } else if is_scroll_control(action) {
        lemma_scroll_control(screen, groups, action);
    } else if is_style_control(action) {
        lemma_style_control(screen, groups, intermediates, action);
    }
}

proof fn lemma_wrapped(screen: ScreenModel)
    requires
        screen.wf(),
    ensures
        edits(screen, screen.wrapped()),
{
    let page = screen.active();
    let row = page.cursor.row as int;
    let start = screen.with_cursor(page.cursor.at(row, 0));
    lemma_state_replaced(screen, BufferModel { cursor: page.cursor.at(row, 0), ..page });
    if page.cursor.row == page.scroll_bottom {
        let top = page.scroll_top as int;
        lemma_scrolled_up(start, 1, top, row);
        lemma_edits_in_turn(screen, start, start.scrolled_up(1, top, row));
    } else {
        let next = page.cursor.at(min(row + 1, screen.rows - 1), 0);
        lemma_state_replaced(start, BufferModel { cursor: next, ..start.active() });
        lemma_edits_in_turn(screen, start, start.with_cursor(next));
    }
}

/// Writing a character changes the cursor line alone.
proof fn lemma_stamped(screen: ScreenModel, ch: char, width: int)
    requires
        screen.wf(),
    ensures
        stays_valid(screen, screen.stamped(ch, width)),
        stays_on_page(screen, screen.stamped(ch, width)),
        screen.stamped(ch, width).cursor() == screen.cursor(),
        screen.stamped(ch, width).active().scroll_bottom == screen.active().scroll_bottom,
        forall|r: int|
            0 <= r < screen.rows && r != screen.cursor().row ==> #[trigger] screen.stamped(
                ch,
                width,
            ).active().lines[r] == screen.active().lines[r],
{
}

proof fn lemma_advanced(screen: ScreenModel, width: int)
    requires
        screen.wf(),
    ensures
        edits(screen, screen.advanced(width)),
{
    let cursor = screen.cursor();
    let row = cursor.row as int;
    if width == 2 && cursor.col + 1 < screen.cols {
        let next = cursor.at(row, min(cursor.col + 2, screen.cols - 1));
        lemma_state_replaced(screen, BufferModel { cursor: next, ..screen.active() });
    } else if cursor.col + 1 < screen.cols {
        let next = cursor.at(row, cursor.col + 1);
        lemma_state_replaced(screen, BufferModel { cursor: next, ..screen.active() });
    } else {
        lemma_wrapped(screen);
    }
}

/// Printing a character keeps the screen valid and stays on the page. Every row it
/// changes is marked, and so is the row the cursor is then in.
pub proof fn law_printing_marks_changed_rows(screen: ScreenModel, ch: char, width: int)
    requires
        screen.wf(),
    ensures
        edits(screen, screen.printed(ch, width)),
        screen.printed(ch, width).dirty[screen.printed(ch, width).cursor().row as int],
{
    let start = if screen.needs_wrap(width) {
        screen.wrapped()
    } else {
        screen
    };
    lemma_marked(screen, 0, 0);
    if screen.needs_wrap(width) {
        lemma_wrapped(screen);
    }
    assert(edits(screen, start));
    let row = start.cursor().row as int;
    let written = start.stamped(ch, width);
    lemma_stamped(start, ch, width);
    let done = written.advanced(width);
    lemma_advanced(written, width);
    let last = screen.printed(ch, width);
    assert forall|r: int|
        0 <= r < screen.rows && screen.dirty[r] implies #[trigger] last.dirty[r] by {
        assert(start.dirty[r]);
        assert(written.dirty[r]);
        assert(done.dirty[r]);
    }
    assert forall|r: int|
        0 <= r < screen.rows && #[trigger] last.active().lines[r]
            != screen.active().lines[r] implies last.dirty[r] by {
        if start.active().lines[r] != screen.active().lines[r] {
            assert(start.dirty[r]);
            assert(written.dirty[r]);
            assert(done.dirty[r]);
        } else if r != row {
            assert(written.active().lines[r] == start.active().lines[r]);
            assert(done.active().lines[r] != written.active().lines[r]);
            assert(done.dirty[r]);
        }
    }
}

proof fn lemma_switched(screen: ScreenModel, enable: bool)
    requires
        screen.wf(),
    ensures
        stays_valid(screen, screen.switched(enable)),
        marks_changes(screen, screen.switched(enable)),
        screen.switched(enable).primary == screen.primary,
        screen.switched(enable).scrollback == screen.scrollback,
        screen.switched(enable).use_alternate == enable,
{
}

proof fn lemma_reset(screen: ScreenModel)
    requires
        screen.wf(),
    ensures
        stays_valid(screen, screen.reset()),
        marks_changes(screen, screen.reset()),
        !screen.reset().use_alternate,
{
}

proof fn lemma_mode_set(screen: ScreenModel, private: bool, mode: u16, enabled: bool)
    requires
        screen.wf(),
    ensures
        stays_valid(screen, screen_in_mode(screen, private, mode, enabled)),
        marks_changes(screen, screen_in_mode(screen, private, mode, enabled)),
        private && mode == 1049 || stays_on_page(
            screen,
            screen_in_mode(screen, private, mode, enabled),
        ),
{
    if private && mode == 25 {
        lemma_cursor_restyled(screen, Cursor { visible: enabled, ..screen.cursor() });
    } else if private && mode == 1049 {
        lemma_switched(screen, enabled);
    }
}

/// Switching modes keeps the screen valid and marks what changes, also when the
/// page is switched in the course of it. As long as the alternate page is shown
/// in the end, it was shown all the time if it was at the start.
proof fn lemma_modes_set(terminal: TerminalModel, private: bool, modes: Seq<u16>, enabled: bool)
    requires
        terminal.screen.wf(),
    ensures
        stays_valid(terminal.screen, terminal.modes_set(private, modes, enabled).screen),
        marks_changes(terminal.screen, terminal.modes_set(private, modes, enabled).screen),
        terminal.screen.use_alternate && terminal.modes_set(
            private,
            modes,
            enabled,
        ).screen.use_alternate ==> stays_on_page(
            terminal.screen,
            terminal.modes_set(private, modes, enabled).screen,
        ),
        terminal.screen.use_alternate == enabled ==> terminal.modes_set(
            private,
            modes,
            enabled,
        ).screen.use_alternate == enabled,
    decreases modes.len(),
{
    let first = terminal.screen;
    if modes.len() > 0 {
        let earlier = terminal.modes_set(private, modes.drop_last(), enabled);
        lemma_modes_set(terminal, private, modes.drop_last(), enabled);
        lemma_mode_set(earlier.screen, private, modes.last(), enabled);
        let last = terminal.modes_set(private, modes, enabled).screen;
        assert(last == screen_in_mode(earlier.screen, private, modes.last(), enabled));
        if private && modes.last() == 1049 {
            lemma_switched(earlier.screen, enabled);
        }
        assert forall|r: int|
            0 <= r < first.rows && first.dirty[r] implies #[trigger] last.dirty[r] by {
            assert(earlier.screen.dirty[r]);
        }
        assert forall|r: int|
            0 <= r < first.rows && #[trigger] last.active().lines[r]
                != first.active().lines[r] implies last.dirty[r] by {
            if earlier.screen.active().lines[r] != first.active().lines[r] {
                assert(earlier.screen.dirty[r]);
            }
        }
    }
}

proof fn lemma_escaped(screen: ScreenModel, byte: u8)
    requires
        screen.wf(),
    ensures
        stays_valid(screen, screen_escaped(screen, byte)),
        marks_changes(screen, screen_escaped(screen, byte)),
        byte != 0x63 ==> stays_on_page(screen, screen_escaped(screen, byte)),
        byte == 0x63 ==> !screen_escaped(screen, byte).use_alternate,
{
    if byte == 0x37 {
        lemma_saved(screen);
    } else if byte == 0x38 {
        lemma_restored(screen);
    } else if byte == 0x44 {
        lemma_line_fed(screen);
    } else if byte == 0x45 {
        let fed = screen.line_fed();
        lemma_line_fed(screen);
        lemma_moved(fed, fed.cursor().row as int, 0);
        lemma_edits_in_turn(screen, fed, fed.moved_to(fed.cursor().row as int, 0));
    } else if byte == 0x4d {
        lemma_reverse_indexed(screen);
    } else if byte == 0x63 {
        lemma_reset(screen);
    }
}

/// What every dispatch keeps.
#[verifier::opaque]
spec fn evolves(before: ScreenModel, after: ScreenModel) -> bool {
    &&& stays_valid(before, after)
    &&& marks_changes(before, after)
    &&& before.use_alternate && after.use_alternate ==> stays_on_page(before, after)
}

proof fn lemma_print_evolves(screen: ScreenModel, ch: char)
    requires
        screen.wf(),
    ensures
        evolves(screen, screen.printed(ch, columns(unicode_char_width(ch)))),
{
    reveal(evolves);
    law_printing_marks_changed_rows(screen, ch, columns(unicode_char_width(ch)));
}

proof fn lemma_execute_evolves(screen: ScreenModel, byte: u8)
    requires
        screen.wf(),
    ensures
        evolves(screen, screen_executed(screen, byte)),
{
    reveal(evolves);
    lemma_executed(screen, byte);
}

proof fn lemma_escape_evolves(screen: ScreenModel, byte: u8)
    requires
        screen.wf(),
    ensures
        evolves(screen, screen_escaped(screen, byte)),
{
    reveal(evolves);
    lemma_escaped(screen, byte);
}

proof fn lemma_control_evolves(
    terminal: TerminalModel,
    groups: Seq<Seq<u16>>,
    intermediates: Seq<u8>,
    action: char,
)
    requires
        terminal.screen.wf(),
    ensures
        evolves(
            terminal.screen,
            terminal.controlled(groups, intermediates, action).screen,
        ),
{
    reveal(evolves);
    let private = intermediates.contains(0x3fu8);
    lemma_marked(terminal.screen, 0, 0);
    if action == 'h' || action == 'l' {
        lemma_modes_set(terminal, private, values_of(groups), action == 'h');
    } else if action == 'n' || action == 'c' {
        assert(terminal.controlled(groups, intermediates, action).screen == terminal.screen);
    } else {
        lemma_screen_after(terminal.screen, groups, intermediates, action);
    }
}

proof fn lemma_dispatch_evolves(terminal: TerminalModel, dispatch: DispatchModel)
    requires
        terminal.screen.wf(),
    ensures
        evolves(terminal.screen, terminal.dispatched(dispatch).screen),
{
    reveal(TerminalModel::dispatched);
    match dispatch {
        DispatchModel::Print(ch) => lemma_print_evolves(terminal.screen, ch),
        DispatchModel::Execute(byte) => lemma_execute_evolves(terminal.screen, byte),
        DispatchModel::Csi(groups, intermediates, action) => lemma_control_evolves(
            terminal,
            groups,
            intermediates,
            action,
        ),
        DispatchModel::Esc(byte) => lemma_escape_evolves(terminal.screen, byte),
    }
}

/// Whatever a program prints, the screen stays valid: its size is kept, both
/// cursors and both scroll regions lie within the grid, and the scrollback does
/// not grow past its limit.
pub proof fn law_output_keeps_screen_valid(
    terminal: TerminalModel,
    dispatches: Seq<DispatchModel>,
)
    requires
        terminal.screen.wf(),
    ensures
        stays_valid(terminal.screen, terminal.all_dispatched(dispatches).screen),
    decreases dispatches.len(),
{
    if dispatches.len() > 0 {
        let earlier = terminal.all_dispatched(dispatches.drop_last());
        law_output_keeps_screen_valid(terminal, dispatches.drop_last());
        lemma_dispatch_evolves(earlier, dispatches.last());
        reveal(evolves);
        let last = terminal.all_dispatched(dispatches).screen;
        assert forall|r: int|
            0 <= r < terminal.screen.rows
                && terminal.screen.dirty[r] implies #[trigger] last.dirty[r] by {
            assert(earlier.screen.dirty[r]);
        }
    }
}

/// Every row that output changes is marked to be drawn again.
pub proof fn law_output_marks_changed_rows(
    terminal: TerminalModel,
    dispatches: Seq<DispatchModel>,
)
    requires
        terminal.screen.wf(),
    ensures
        marks_changes(terminal.screen, terminal.all_dispatched(dispatches).screen),
    decreases dispatches.len(),
{
    if dispatches.len() > 0 {
        let before = dispatches.drop_last();
        let earlier = terminal.all_dispatched(before);
        law_output_marks_changed_rows(terminal, before);
        law_output_keeps_screen_valid(terminal, before);
        lemma_dispatch_evolves(earlier, dispatches.last());
        reveal(evolves);
        let last = terminal.all_dispatched(dispatches).screen;
        assert forall|r: int|
            0 <= r < terminal.screen.rows && #[trigger] last.active().lines[r]
                != terminal.screen.active().lines[r] implies last.dirty[r] by {
            if earlier.screen.active().lines[r] != terminal.screen.active().lines[r] {
                assert(earlier.screen.dirty[r]);
            }
        }
    }
}

/// As long as the alternate page stays on, no output touches the primary page or
/// the lines that scrolled off it.
pub proof fn law_alternate_page_protects_primary(
    terminal: TerminalModel,
    dispatches: Seq<DispatchModel>,
)
    requires
        terminal.screen.wf(),
        forall|i: int|
            0 <= i <= dispatches.len() ==> (#[trigger] terminal.all_dispatched(
                dispatches.take(i),
            )).screen.use_alternate,
    ensures
        terminal.all_dispatched(dispatches).screen.primary == terminal.screen.primary,
        terminal.all_dispatched(dispatches).screen.scrollback == terminal.screen.scrollback,
    decreases dispatches.len(),
{
    if dispatches.len() > 0 {
        let before = dispatches.drop_last();
        let earlier = terminal.all_dispatched(before);
        assert forall|i: int| 0 <= i <= before.len() implies (
        #[trigger] terminal.all_dispatched(before.take(i))).screen.use_alternate by {
            assert(before.take(i) =~= dispatches.take(i));
        }
        law_alternate_page_protects_primary(terminal, before);
        law_output_keeps_screen_valid(terminal, before);
        assert(before =~= dispatches.take(dispatches.len() - 1));
        assert(dispatches =~= dispatches.take(dispatches.len() as int));
        lemma_dispatch_evolves(earlier, dispatches.last());
        reveal(evolves);
    }
}

/// A visit to the alternate page leaves no trace: after private mode 1049 was
/// switched on, any output in between, and off again, the primary page and the
/// lines that scrolled off it are what they were, and the primary page is shown.
pub proof fn law_leaving_alternate_page_restores_primary(
    terminal: TerminalModel,
    dispatches: Seq<DispatchModel>,
)
    requires
        terminal.screen.wf(),
        !terminal.screen.use_alternate,
        forall|i: int|
            0 <= i <= dispatches.len() ==> (#[trigger] terminal.mode_set(
                true,
                1049,
                true,
            ).all_dispatched(dispatches.take(i))).screen.use_alternate,
    ensures
        ({
            let back = terminal.mode_set(true, 1049, true).all_dispatched(dispatches).mode_set(
                true,
                1049,
                false,
            );
            &&& back.screen.primary == terminal.screen.primary
            &&& back.screen.scrollback == terminal.screen.scrollback
            &&& back.screen.active() == terminal.screen.active()
        }),
{
    let entered = terminal.mode_set(true, 1049, true);
    lemma_switched(terminal.screen, true);
    law_alternate_page_protects_primary(entered, dispatches);
    law_output_keeps_screen_valid(entered, dispatches);
    lemma_switched(entered.all_dispatched(dispatches).screen, false);
}

} // verus!

//! Which lines move, where they go, and what the scrollback keeps of them.

use vstd::prelude::*;

use crate::laws::frames::{
    after_csi, begins_with, counts, goes_on_with, is_at, is_erased, lemma_screen_csi,
    lemma_after_escape, lemma_after_execute, only_moves, only_rewrites, same_frame, same_modes,
    same_settings,
};
use crate::parser::{edit_control, scroll_control, values_of, TerminalModel};
use crate::screen::cell::Cell;
use crate::screen::model::ScreenModel;
use crate::vt::DispatchModel;

verus! {

/// Whether a line has this many cells and all of them are erased.
pub open spec fn is_blank_line(line: Seq<Cell>, cols: int) -> bool {
    line.len() == cols && forall|c: int| 0 <= c < cols ==> is_erased(#[trigger] line[c])
}

/// Whether the rows `top..=bottom` went up by `n`: blank lines came in from below, and
/// the other rows stayed.
pub open spec fn went_up(
    before: ScreenModel,
    after: ScreenModel,
    top: int,
    bottom: int,
    n: int,
) -> bool {
    let old_lines = before.active().lines;
    let new_lines = after.active().lines;
    &&& new_lines.len() == old_lines.len()
    &&& forall|r: int|
        0 <= r < old_lines.len() ==> {
            &&& r < top || bottom < r ==> #[trigger] new_lines[r] == old_lines[r]
            &&& top <= r && r + n <= bottom ==> new_lines[r] == old_lines[r + n]
            &&& top <= r <= bottom && bottom < r + n ==> is_blank_line(
                new_lines[r],
                before.cols as int,
            )
        }
}

/// Whether the rows `top..=bottom` went down by `n`: blank lines came in from above, and
/// the other rows stayed.
pub open spec fn went_down(
    before: ScreenModel,
    after: ScreenModel,
    top: int,
    bottom: int,
    n: int,
) -> bool {
    let old_lines = before.active().lines;
    let new_lines = after.active().lines;
    &&& new_lines.len() == old_lines.len()
    &&& forall|r: int|
        0 <= r < old_lines.len() ==> {
            &&& r < top || bottom < r ==> #[trigger] new_lines[r] == old_lines[r]
            &&& top <= r - n && r <= bottom ==> new_lines[r] == old_lines[r - n]
            &&& top <= r <= bottom && r - n < top ==> is_blank_line(
                new_lines[r],
                before.cols as int,
            )
        }
}

/// Whether `count` lines from the top of the page were added to the scrollback, which
/// then has the latest ones, as many as it keeps.
pub open spec fn remembered(before: ScreenModel, after: ScreenModel, count: int) -> bool {
    let total = before.scrollback.len() + count;
    let dropped = total - after.scrollback.len();
    &&& after.scrollback.len() == total || (after.scrollback.len() == before.scrollback_cap
        && total > before.scrollback_cap)
    &&& forall|i: int|
        0 <= i < after.scrollback.len() ==> #[trigger] after.scrollback[i] == (if i + dropped
            < before.scrollback.len() {
            before.scrollback[i + dropped]
        } else {
            before.active().lines[i + dropped - before.scrollback.len()]
        })
}

/// Whether the scroll region is the whole primary page, so that lines which leave it go
/// to the scrollback.
pub open spec fn feeds_scrollback(screen: ScreenModel) -> bool {
    &&& !screen.use_alternate
    &&& screen.active().scroll_top == 0
    &&& screen.active().scroll_bottom == screen.rows - 1
}

/// Whether nothing but the shown lines, the scrollback and the marks may differ.
pub open spec fn only_scrolls(before: ScreenModel, after: ScreenModel) -> bool {
    &&& same_frame(before, after)
    &&& same_settings(before.active(), after.active())
    &&& after.attrs() == before.attrs()
    &&& after.cursor() == before.cursor()
}

/// Whether the scroll region went up by `n` rows, with the scrollback to match.
pub open spec fn scrolled_by(before: ScreenModel, after: ScreenModel, n: int) -> bool {
    let top = before.active().scroll_top as int;
    let bottom = before.active().scroll_bottom as int;
    let gone = if n < bottom - top + 1 {
        n
    } else {
        bottom - top + 1
    };
    &&& only_scrolls(before, after)
    &&& went_up(before, after, top, bottom, n)
    &&& feeds_scrollback(before) ==> remembered(before, after, gone)
    &&& !feeds_scrollback(before) ==> after.scrollback == before.scrollback
}

proof fn lemma_scrolled_by(screen: ScreenModel, n: int)
    requires
        screen.wf(),
        n >= 1,
    ensures
        scrolled_by(
            screen,
            screen.scrolled_up(
                n,
                screen.active().scroll_top as int,
                screen.active().scroll_bottom as int,
            ),
            n,
        ),
{
    let top = screen.active().scroll_top as int;
    let bottom = screen.active().scroll_bottom as int;
    let after = screen.scrolled_up(n, top, bottom);
    assert(went_up(screen, after, top, bottom, n));
    if feeds_scrollback(screen) {
        let gone = if n < bottom - top + 1 {
            n
        } else {
            bottom - top + 1
        };
        assert(remembered(screen, after, gone));
    }
}

/// Scrolling up by a count moves the lines of the scroll region up, blank lines come in
/// from below, and the cursor stays. What leaves the whole primary page goes to the
/// scrollback, which keeps the latest lines.
pub proof fn law_scroll_up_moves_lines_up(
    terminal: TerminalModel,
    groups: Seq<Seq<u16>>,
    marks: Seq<u8>,
    n: int,
)
    requires
        terminal.screen.wf(),
        counts(groups, n),
    ensures
        scrolled_by(terminal.screen, after_csi(terminal, groups, marks, 'S').screen, n),
        same_modes(terminal, after_csi(terminal, groups, marks, 'S')),
{
    reveal(scroll_control);
    lemma_screen_csi(terminal, groups, marks, 'S');
    lemma_scrolled_by(terminal.screen, n);
}

/// Scrolling down by a count moves the lines of the scroll region down, blank lines come
/// in from above, and cursor and scrollback stay.
pub proof fn law_scroll_down_moves_lines_down(
    terminal: TerminalModel,
    groups: Seq<Seq<u16>>,
    marks: Seq<u8>,
    n: int,
)
    requires
        terminal.screen.wf(),
        counts(groups, n),
    ensures
        ({
            let before = terminal.screen;
            let after = after_csi(terminal, groups, marks, 'T');
            let top = before.active().scroll_top as int;
            let bottom = before.active().scroll_bottom as int;
            &&& only_rewrites(before, after.screen) && same_modes(terminal, after)
            &&& went_down(before, after.screen, top, bottom, n)
        }),
{
    reveal(scroll_control);
    lemma_screen_csi(terminal, groups, marks, 'T');
}

/// Whether a line feed was done: in the last row of the scroll region the region went up
/// by one row, elsewhere the cursor went down by one row if there is one.
pub open spec fn fed(before: ScreenModel, after: ScreenModel) -> bool {
    let row = before.cursor().row as int;
    let col = before.cursor().col as int;
    if row == before.active().scroll_bottom {
        scrolled_by(before, after, 1)
    } else {
        &&& only_moves(before, after)
        &&& row + 1 < before.rows ==> is_at(after, row + 1, col)
        &&& row + 1 == before.rows ==> is_at(after, row, col)
    }
}

/// Line feed, vertical tab, form feed and the index sequence go down by one row and
/// scroll only in the last row of the scroll region.
pub proof fn law_line_feed_goes_down(terminal: TerminalModel, byte: u8)
    requires
        terminal.screen.wf(),
        byte == 0x0a || byte == 0x0b || byte == 0x0c,
    ensures
        fed(terminal.screen, terminal.dispatched(DispatchModel::Execute(byte)).screen),
        same_modes(terminal, terminal.dispatched(DispatchModel::Execute(byte))),
        fed(terminal.screen, terminal.dispatched(DispatchModel::Esc(0x44)).screen),
        same_modes(terminal, terminal.dispatched(DispatchModel::Esc(0x44))),
{
    lemma_after_execute(terminal, byte);
    lemma_after_escape(terminal, 0x44);
    lemma_scrolled_by(terminal.screen, 1);
}

/// The next line sequence is a line feed and a carriage return.
pub proof fn law_next_line_feeds_and_returns(terminal: TerminalModel)
    requires
        terminal.screen.wf(),
    ensures
        ({
            let feed = terminal.dispatched(DispatchModel::Execute(0x0a)).screen;
            let next = terminal.dispatched(DispatchModel::Esc(0x45));
            &&& only_moves(feed, next.screen) && same_modes(terminal, next)
            &&& is_at(next.screen, feed.cursor().row as int, 0)
        }),
{
    lemma_after_execute(terminal, 0x0a);
    lemma_after_escape(terminal, 0x45);
    lemma_scrolled_by(terminal.screen, 1);
}

/// The reverse index sequence goes up by one row; in the first row of the scroll region
/// the region goes down by one row instead.
pub proof fn law_reverse_index_goes_up(terminal: TerminalModel)
    requires
        terminal.screen.wf(),
    ensures
        ({
            let before = terminal.screen;
            let after = terminal.dispatched(DispatchModel::Esc(0x4d));
            let row = before.cursor().row as int;
            let col = before.cursor().col as int;
            let top = before.active().scroll_top as int;
            let bottom = before.active().scroll_bottom as int;
            &&& same_modes(terminal, after)
            &&& row == top ==> only_rewrites(before, after.screen) && went_down(
                before,
                after.screen,
                top,
                bottom,
                1,
            )
            &&& row != top ==> only_moves(before, after.screen)
            &&& row != top && row > 0 ==> is_at(after.screen, row - 1, col)
            &&& row != top && row == 0 ==> is_at(after.screen, 0, col)
        }),
{
    lemma_after_escape(terminal, 0x4d);
}

/// Inserting lines moves the lines from the cursor row to the end of the scroll region
/// down, and deleting lines moves those behind them up. Outside of the region both do
/// nothing. Cursor and scrollback stay.
pub proof fn law_lines_are_inserted_and_deleted(
    terminal: TerminalModel,
    groups: Seq<Seq<u16>>,
    marks: Seq<u8>,
    n: int,
)
    requires
        terminal.screen.wf(),
        counts(groups, n),
    ensures
        ({
            let before = terminal.screen;
            let row = before.cursor().row as int;
            let bottom = before.active().scroll_bottom as int;
            let inside = before.active().scroll_top <= row <= bottom;
            let more = after_csi(terminal, groups, marks, 'L');
            let less = after_csi(terminal, groups, marks, 'M');
            &&& only_rewrites(before, more.screen) && same_modes(terminal, more)
            &&& inside ==> went_down(before, more.screen, row, bottom, n)
            &&& !inside ==> more.screen == before
            &&& only_rewrites(before, less.screen) && same_modes(terminal, less)
            &&& inside ==> went_up(before, less.screen, row, bottom, n)
            &&& !inside ==> less.screen == before
        }),
{
    reveal(edit_control);
    lemma_screen_csi(terminal, groups, marks, 'L');
    lemma_screen_csi(terminal, groups, marks, 'M');
}

/// A scroll region is set by its first and last row, counted from one, as far as the
/// page has them, and the cursor goes to its first cell. A region of fewer than two rows
/// is not taken, and two zeros give the whole page. No line changes.
pub proof fn law_scroll_region_is_set(
    terminal: TerminalModel,
    groups: Seq<Seq<u16>>,
    marks: Seq<u8>,
    first: int,
    last: int,
)
    requires
        terminal.screen.wf(),
        begins_with(groups, first),
        goes_on_with(groups, last),
    ensures
        ({
            let before = terminal.screen;
            let after = after_csi(terminal, groups, marks, 'r');
            let page = after.screen.active();
            let from = if first == 0 {
                1
            } else {
                first
            };
            let to = if last > before.rows {
                before.rows as int
            } else {
                last
            };
            &&& same_modes(terminal, after)
            &&& same_frame(before, after.screen)
            &&& page.lines == before.active().lines
            &&& after.screen.scrollback == before.scrollback
            &&& after.screen.attrs() == before.attrs()
            &&& page.saved_cursor == before.active().saved_cursor
            &&& page.saved_attrs == before.active().saved_attrs
            &&& page.tabstops == before.active().tabstops
            &&& after.screen.cursor().visible == before.cursor().visible
            &&& after.screen.cursor().shape == before.cursor().shape
            &&& first == 0 && last == 0 ==> {
                &&& page.scroll_top == 0
                &&& page.scroll_bottom == before.rows - 1
                &&& after.screen.cursor() == before.cursor()
            }
            &&& last != 0 && from < to ==> {
                &&& page.scroll_top == from - 1
                &&& page.scroll_bottom == to - 1
                &&& is_at(after.screen, from - 1, 0)
            }
            &&& !(first == 0 && last == 0) && from >= to ==> after.screen == before
        }),
{
    reveal(scroll_control);
    lemma_screen_csi(terminal, groups, marks, 'r');
    let values = values_of(groups);
    assert(values[0] == first);
    assert(values[1] == last);
}

/// Without numbers the scroll region becomes the whole page, if that has two rows and no
/// more than sixteen bits can tell.
pub proof fn law_scroll_region_is_taken_back(
    terminal: TerminalModel,
    groups: Seq<Seq<u16>>,
    marks: Seq<u8>,
)
    requires
        terminal.screen.wf(),
        2 <= terminal.screen.rows <= 0xffff,
        groups.len() <= 1,
        groups.len() == 1 ==> groups[0].len() == 0 || groups[0][0] <= 1,
    ensures
        ({
            let after = after_csi(terminal, groups, marks, 'r').screen;
            &&& after.active().scroll_top == 0
            &&& after.active().scroll_bottom == terminal.screen.rows - 1
            &&& is_at(after, 0, 0)
            &&& after.active().lines == terminal.screen.active().lines
        }),
{
    reveal(scroll_control);
    lemma_screen_csi(terminal, groups, marks, 'r');
    let values = values_of(groups);
    assert(values.len() == 1);
    assert(values[0] <= 1);
}

} // verus!

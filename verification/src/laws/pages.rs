//! The two pages, the modes, and the answers of the terminal.

use vstd::prelude::*;

use crate::decimal::decimal;
use crate::laws::colors::carries;
use crate::laws::frames::{
    after_csi, are_plain, begins_with, is_at, lemma_after_csi, lemma_after_escape,
    lemma_screen_csi, same_frame, same_modes, same_settings,
};
use crate::laws::scrolling::is_blank_line;
use crate::parser::{
    style_control, values_of, MouseTracking, TerminalModel, TerminalModes,
};
use crate::screen::cell::{Cursor, CursorShape};
use crate::screen::model::{BufferModel, ScreenModel};
use crate::vt::DispatchModel;

verus! {

/// Whether a cursor is the one that a page starts with: a visible block in the first
/// cell.
pub open spec fn is_home(cursor: Cursor) -> bool {
    &&& cursor.row == 0
    &&& cursor.col == 0
    &&& cursor.visible
    &&& cursor.shape == CursorShape::Block
}

/// Whether a page is blank, with its cursor, attributes and scroll region as at the
/// start.
pub open spec fn is_cleared(page: BufferModel, cols: int, rows: int) -> bool {
    &&& page.lines.len() == rows
    &&& forall|r: int| 0 <= r < rows ==> is_blank_line(#[trigger] page.lines[r], cols)
    &&& is_home(page.cursor)
    &&& are_plain(page.attrs)
    &&& page.scroll_top == 0
    &&& page.scroll_bottom == rows - 1
}

/// Whether every row is marked.
pub open spec fn all_marked(screen: ScreenModel) -> bool {
    forall|r: int| 0 <= r < screen.rows ==> #[trigger] screen.dirty[r]
}

/// The private marks of a sequence.
pub open spec fn is_private(marks: Seq<u8>) -> bool {
    marks.contains(0x3f)
}

proof fn lemma_single_mode(
    terminal: TerminalModel,
    groups: Seq<Seq<u16>>,
    marks: Seq<u8>,
    mode: u16,
)
    requires
        carries(groups, seq![mode]),
    ensures
        after_csi(terminal, groups, marks, 'h') == terminal.mode_set(
            is_private(marks),
            mode,
            true,
        ),
        after_csi(terminal, groups, marks, 'l') == terminal.mode_set(
            is_private(marks),
            mode,
            false,
        ),
{
    lemma_after_csi(terminal, groups, marks, 'h');
    lemma_after_csi(terminal, groups, marks, 'l');
    let modes = seq![mode];
    assert(values_of(groups) =~= modes);
    assert(modes.drop_last() =~= Seq::<u16>::empty());
    assert(terminal.modes_set(is_private(marks), modes.drop_last(), true) == terminal);
    assert(terminal.modes_set(is_private(marks), modes.drop_last(), false) == terminal);
}

/// Switching 1049 on shows the alternate page, blank and with everything but what was
/// saved there as at the start; switching it off shows the primary page as it was left.
/// Neither touches the primary page or the scrollback. If the page is shown already,
/// nothing happens.
pub proof fn law_alternate_page_comes_and_goes(
    terminal: TerminalModel,
    groups: Seq<Seq<u16>>,
    marks: Seq<u8>,
)
    requires
        terminal.screen.wf(),
        carries(groups, seq![1049u16]),
        is_private(marks),
    ensures
        ({
            let before = terminal.screen;
            let on = after_csi(terminal, groups, marks, 'h');
            let off = after_csi(terminal, groups, marks, 'l');
            &&& same_modes(terminal, on) && same_modes(terminal, off)
            &&& on.screen.use_alternate && !off.screen.use_alternate
            &&& on.screen.primary == before.primary && off.screen.primary == before.primary
            &&& on.screen.scrollback == before.scrollback
            &&& off.screen.scrollback == before.scrollback
            &&& on.screen.cols == before.cols && on.screen.rows == before.rows
            &&& off.screen.cols == before.cols && off.screen.rows == before.rows
            &&& before.use_alternate ==> on.screen == before
            &&& !before.use_alternate ==> {
                &&& is_cleared(on.screen.alternate, before.cols as int, before.rows as int)
                &&& on.screen.alternate.saved_cursor == before.alternate.saved_cursor
                &&& on.screen.alternate.saved_attrs == before.alternate.saved_attrs
                &&& on.screen.alternate.tabstops == before.alternate.tabstops
                &&& all_marked(on.screen)
            }
            &&& !before.use_alternate ==> off.screen == before
            &&& before.use_alternate ==> off.screen.alternate == before.alternate && all_marked(
                off.screen,
            )
        }),
{
    lemma_single_mode(terminal, groups, marks, 1049);
}

/// Whether nothing but the look of the cursor, and the marks, may differ.
pub open spec fn only_restyles_cursor(before: ScreenModel, after: ScreenModel) -> bool {
    &&& same_frame(before, after)
    &&& same_settings(before.active(), after.active())
    &&& after.active().lines == before.active().lines
    &&& after.attrs() == before.attrs()
    &&& after.scrollback == before.scrollback
    &&& is_at(after, before.cursor().row as int, before.cursor().col as int)
    &&& after.dirty[before.cursor().row as int]
}

/// Switching 25 on shows the cursor, and switching it off hides it; its place and shape
/// stay.
pub proof fn law_cursor_is_shown_and_hidden(
    terminal: TerminalModel,
    groups: Seq<Seq<u16>>,
    marks: Seq<u8>,
)
    requires
        terminal.screen.wf(),
        carries(groups, seq![25u16]),
        is_private(marks),
    ensures
        ({
            let before = terminal.screen;
            let on = after_csi(terminal, groups, marks, 'h');
            let off = after_csi(terminal, groups, marks, 'l');
            &&& same_modes(terminal, on) && same_modes(terminal, off)
            &&& only_restyles_cursor(before, on.screen) && only_restyles_cursor(before, off.screen)
            &&& on.screen.cursor().visible && !off.screen.cursor().visible
            &&& on.screen.cursor().shape == before.cursor().shape
            &&& off.screen.cursor().shape == before.cursor().shape
        }),
{
    lemma_single_mode(terminal, groups, marks, 25);
}

/// A cursor style of 3 or 4 gives an underline, 5 or 6 a beam, and any other a block, if
/// a space stands before the final byte; its place stays, and it stays visible or hidden.
pub proof fn law_cursor_shape_is_selected(
    terminal: TerminalModel,
    groups: Seq<Seq<u16>>,
    marks: Seq<u8>,
    style: int,
)
    requires
        terminal.screen.wf(),
        begins_with(groups, style),
    ensures
        ({
            let before = terminal.screen;
            let after = after_csi(terminal, groups, marks, 'q');
            &&& same_modes(terminal, after)
            &&& !marks.contains(0x20) ==> after.screen == before
            &&& marks.contains(0x20) ==> {
                &&& only_restyles_cursor(before, after.screen)
                &&& after.screen.cursor().visible == before.cursor().visible
                &&& style == 3 || style == 4 ==> after.screen.cursor().shape
                    == CursorShape::Underline
                &&& style == 5 || style == 6 ==> after.screen.cursor().shape == CursorShape::Beam
                &&& style < 3 || style > 6 ==> after.screen.cursor().shape == CursorShape::Block
            }
        }),
{
    reveal(style_control);
    lemma_screen_csi(terminal, groups, marks, 'q');
    let values = values_of(groups);
    assert(values[0] == style);
}

/// Whether all modes but those named may differ. Each private mode switches what it is
/// for and nothing else: 1 the cursor keys, 1006 the form of mouse reports, 2004 the
/// marks of pasted text, and 1000, 1002 and 1003 which mouse events are reported.
pub open spec fn is_switched(
    before: TerminalModes,
    after: TerminalModes,
    mode: u16,
    on: bool,
) -> bool {
    &&& after.app_cursor_keys == (if mode == 1 {
        on
    } else {
        before.app_cursor_keys
    })
    &&& after.sgr_mouse == (if mode == 1006 {
        on
    } else {
        before.sgr_mouse
    })
    &&& after.bracketed_paste == (if mode == 2004 {
        on
    } else {
        before.bracketed_paste
    })
    &&& after.mouse_tracking == (if mode == 1000 || mode == 1002 || mode == 1003 {
        if !on {
            MouseTracking::Off
        } else if mode == 1000 {
            MouseTracking::Click
        } else if mode == 1002 {
            MouseTracking::Drag
        } else {
            MouseTracking::Motion
        }
    } else {
        before.mouse_tracking
    })
}

/// A private mode switches what it is for and nothing else; a mode that is not private
/// switches nothing.
pub proof fn law_modes_switch_what_they_are_for(
    terminal: TerminalModel,
    groups: Seq<Seq<u16>>,
    marks: Seq<u8>,
    mode: u16,
)
    requires
        carries(groups, seq![mode]),
    ensures
        ({
            let on = after_csi(terminal, groups, marks, 'h');
            let off = after_csi(terminal, groups, marks, 'l');
            &&& on.replies == terminal.replies && off.replies == terminal.replies
            &&& is_private(marks) ==> is_switched(terminal.modes, on.modes, mode, true)
            &&& is_private(marks) ==> is_switched(terminal.modes, off.modes, mode, false)
            &&& !is_private(marks) ==> on == terminal && off == terminal
            &&& mode != 25 && mode != 1049 ==> on.screen == terminal.screen && off.screen
                == terminal.screen
        }),
{
    lemma_single_mode(terminal, groups, marks, mode);
}

/// Several modes in one sequence do what they do in one sequence each.
pub proof fn law_modes_in_turn(
    terminal: TerminalModel,
    marks: Seq<u8>,
    first: Seq<Seq<u16>>,
    last: Seq<Seq<u16>>,
    modes: Seq<u16>,
    mode: u16,
)
    requires
        carries(first, modes),
        modes.len() > 0,
        carries(last, seq![mode]),
    ensures
        after_csi(terminal, first + last, marks, 'h') == after_csi(
            after_csi(terminal, first, marks, 'h'),
            last,
            marks,
            'h',
        ),
        after_csi(terminal, first + last, marks, 'l') == after_csi(
            after_csi(terminal, first, marks, 'l'),
            last,
            marks,
            'l',
        ),
{
    let private = is_private(marks);
    lemma_after_csi(terminal, first, marks, 'h');
    lemma_after_csi(terminal, first, marks, 'l');
    lemma_after_csi(terminal, first + last, marks, 'h');
    lemma_after_csi(terminal, first + last, marks, 'l');
    lemma_single_mode(after_csi(terminal, first, marks, 'h'), last, marks, mode);
    lemma_single_mode(after_csi(terminal, first, marks, 'l'), last, marks, mode);
    assert(values_of(first) =~= modes);
    let all = values_of(first + last);
    assert(all =~= modes.push(mode));
    assert(all.drop_last() =~= modes);
}

/// A full reset leaves both pages blank, with everything as at the start and nothing
/// saved, shows the primary one, switches all modes off and keeps the scrollback.
pub proof fn law_full_reset_starts_over(terminal: TerminalModel)
    requires
        terminal.screen.wf(),
    ensures
        ({
            let before = terminal.screen;
            let after = terminal.dispatched(DispatchModel::Esc(0x63));
            let cols = before.cols as int;
            let rows = before.rows as int;
            &&& after.screen.cols == before.cols && after.screen.rows == before.rows
            &&& !after.screen.use_alternate
            &&& is_cleared(after.screen.primary, cols, rows)
            &&& is_cleared(after.screen.alternate, cols, rows)
            &&& is_home(after.screen.primary.saved_cursor)
            &&& is_home(after.screen.alternate.saved_cursor)
            &&& are_plain(after.screen.primary.saved_attrs)
            &&& are_plain(after.screen.alternate.saved_attrs)
            &&& after.screen.scrollback == before.scrollback
            &&& all_marked(after.screen)
            &&& after.replies == terminal.replies
            &&& !after.modes.app_cursor_keys && !after.modes.sgr_mouse
            &&& !after.modes.bracketed_paste && after.modes.mouse_tracking == MouseTracking::Off
        }),
{
    lemma_after_escape(terminal, 0x63);
}

/// A screen starts with two blank pages and an empty scrollback, shows the primary page,
/// and has every row marked.
pub proof fn law_fresh_screen_is_blank(cols: int, rows: int, cap: int)
    requires
        1 <= cols <= usize::MAX,
        1 <= rows <= usize::MAX,
        1 <= cap <= usize::MAX,
    ensures
        ({
            let screen = ScreenModel::fresh(cols, rows, cap);
            &&& screen.cols == cols && screen.rows == rows && screen.scrollback_cap == cap
            &&& !screen.use_alternate
            &&& is_cleared(screen.primary, cols, rows)
            &&& is_cleared(screen.alternate, cols, rows)
            &&& is_home(screen.primary.saved_cursor) && is_home(screen.alternate.saved_cursor)
            &&& are_plain(screen.primary.saved_attrs) && are_plain(screen.alternate.saved_attrs)
            &&& screen.scrollback.len() == 0
            &&& all_marked(screen)
            &&& screen.wf()
        }),
{
}

/// A terminal that is asked answers with one reply and changes nothing: `ESC [ 5 n` is
/// answered `ESC [ 0 n`, `ESC [ 6 n` is answered with row and column of the cursor,
/// counted from one, and `ESC [ c` is answered `ESC [ ? 1 ; 2 c`. Other questions, and
/// private ones, are not answered.
pub proof fn law_answers_say_what_was_asked(
    terminal: TerminalModel,
    groups: Seq<Seq<u16>>,
    marks: Seq<u8>,
    n: int,
)
    requires
        begins_with(groups, n),
    ensures
        ({
            let cursor = terminal.screen.cursor();
            let status = after_csi(terminal, groups, marks, 'n');
            let identity = after_csi(terminal, groups, marks, 'c');
            let place = seq![0x1bu8, 0x5b] + decimal((cursor.row + 1) as nat) + seq![0x3bu8]
                + decimal((cursor.col + 1) as nat) + seq![0x52u8];
            &&& status.screen == terminal.screen && status.modes == terminal.modes
            &&& identity.screen == terminal.screen && identity.modes == terminal.modes
            &&& status.replies == (if is_private(marks) || (n != 5 && n != 6) {
                terminal.replies
            } else if n == 5 {
                terminal.replies.push(seq![0x1bu8, 0x5b, 0x30, 0x6e])
            } else {
                terminal.replies.push(place)
            })
            &&& identity.replies == (if is_private(marks) {
                terminal.replies
            } else {
                terminal.replies.push(seq![0x1bu8, 0x5b, 0x3f, 0x31, 0x3b, 0x32, 0x63])
            })
        }),
{
    lemma_after_csi(terminal, groups, marks, 'n');
    lemma_after_csi(terminal, groups, marks, 'c');
    let values = values_of(groups);
    assert(values[0] == n);
}

} // verus!

//! What an operation leaves as it was, and words that the laws share.

use vstd::prelude::*;

use crate::parser::{screen_after, screen_escaped, screen_executed, TerminalModel};
use crate::screen::cell::{AttrState, Cell, Rgb};
use crate::screen::model::{BufferModel, ScreenModel};
use crate::screen::width::{columns, unicode_char_width};
use crate::vt::DispatchModel;

verus! {

/// Whether a cell is erased: a space in the default colours, without any flag.
pub open spec fn is_erased(cell: Cell) -> bool {
    &&& cell.ch == ' '
    &&& cell.fg == (Rgb { r: 230, g: 230, b: 230 })
    &&& cell.bg == (Rgb { r: 12, g: 12, b: 12 })
    &&& cell.flags.bits == 0
}

/// Whether these are the attributes that a terminal starts with.
pub open spec fn are_plain(attrs: AttrState) -> bool {
    &&& attrs.fg == (Rgb { r: 230, g: 230, b: 230 })
    &&& attrs.bg == (Rgb { r: 12, g: 12, b: 12 })
    &&& !attrs.bold
    &&& !attrs.italic
    &&& !attrs.underline
    &&& !attrs.inverse
}

/// The page that is not shown.
pub open spec fn hidden_page(screen: ScreenModel) -> BufferModel {
    if screen.use_alternate {
        screen.primary
    } else {
        screen.alternate
    }
}

/// Whether the size, the choice of the page and the hidden page are the same.
pub open spec fn same_frame(before: ScreenModel, after: ScreenModel) -> bool {
    &&& after.cols == before.cols
    &&& after.rows == before.rows
    &&& after.use_alternate == before.use_alternate
    &&& hidden_page(after) == hidden_page(before)
    &&& after.scrollback_cap == before.scrollback_cap
    &&& after.dirty.len() == before.dirty.len()
}

/// Whether what was saved, the tab stops and the scroll region are the same.
pub open spec fn same_settings(before: BufferModel, after: BufferModel) -> bool {
    &&& after.tabstops == before.tabstops
    &&& after.saved_cursor == before.saved_cursor
    &&& after.saved_attrs == before.saved_attrs
    &&& after.scroll_top == before.scroll_top
    &&& after.scroll_bottom == before.scroll_bottom
}

/// Whether the place of the cursor, and the marks, are all that may differ.
pub open spec fn only_moves(before: ScreenModel, after: ScreenModel) -> bool {
    &&& same_frame(before, after)
    &&& same_settings(before.active(), after.active())
    &&& after.active().lines == before.active().lines
    &&& after.attrs() == before.attrs()
    &&& after.cursor().visible == before.cursor().visible
    &&& after.cursor().shape == before.cursor().shape
    &&& after.scrollback == before.scrollback
}

/// Whether the shown lines, and the marks, are all that may differ.
pub open spec fn only_rewrites(before: ScreenModel, after: ScreenModel) -> bool {
    &&& same_frame(before, after)
    &&& same_settings(before.active(), after.active())
    &&& after.active().lines.len() == before.active().lines.len()
    &&& after.attrs() == before.attrs()
    &&& after.cursor() == before.cursor()
    &&& after.scrollback == before.scrollback
}

/// Whether the cursor is in this row and column.
pub open spec fn is_at(screen: ScreenModel, row: int, col: int) -> bool {
    screen.cursor().row == row && screen.cursor().col == col
}

/// Whether two terminals are the same.
pub open spec fn is_terminal(terminal: TerminalModel, other: TerminalModel) -> bool {
    terminal == other
}

/// Whether two screens are the same.
pub open spec fn is_screen(screen: ScreenModel, other: ScreenModel) -> bool {
    screen == other
}

/// Whether the modes and the answers are the same.
pub open spec fn same_modes(before: TerminalModel, after: TerminalModel) -> bool {
    after.modes == before.modes && after.replies == before.replies
}

/// The terminal after a control sequence.
pub open spec fn after_csi(
    terminal: TerminalModel,
    groups: Seq<Seq<u16>>,
    intermediates: Seq<u8>,
    action: char,
) -> TerminalModel {
    terminal.dispatched(DispatchModel::Csi(groups, intermediates, action))
}

/// Whether a control sequence begins with this number.
pub open spec fn begins_with(groups: Seq<Seq<u16>>, number: int) -> bool {
    groups.len() >= 1 && groups[0].len() >= 1 && groups[0][0] == number
}

/// Whether a control sequence has this number, without subparameters, in second
/// place.
pub open spec fn goes_on_with(groups: Seq<Seq<u16>>, number: int) -> bool {
    groups.len() >= 2 && groups[1].len() >= 1 && groups[1][0] == number
}

/// Whether a control sequence begins with this count, where none and zero count as
/// one.
pub open spec fn counts(groups: Seq<Seq<u16>>, n: int) -> bool {
    ||| n >= 1 && begins_with(groups, n)
    ||| n == 1 && (begins_with(groups, 0) || groups.len() == 0 || groups[0].len() == 0)
}

pub(crate) proof fn lemma_after_csi(
    terminal: TerminalModel,
    groups: Seq<Seq<u16>>,
    intermediates: Seq<u8>,
    action: char,
)
    ensures
        is_terminal(
            after_csi(terminal, groups, intermediates, action),
            terminal.controlled(groups, intermediates, action),
        ),
{
    reveal(TerminalModel::dispatched);
}

/// A control sequence that is neither a question nor a mode acts on the screen alone.
pub(crate) proof fn lemma_screen_csi(
    terminal: TerminalModel,
    groups: Seq<Seq<u16>>,
    intermediates: Seq<u8>,
    action: char,
)
    requires
        action != 'n',
        action != 'c',
        action != 'h',
        action != 'l',
    ensures
        is_screen(
            after_csi(terminal, groups, intermediates, action).screen,
            screen_after(terminal.screen, groups, intermediates, action),
        ),
        same_modes(terminal, after_csi(terminal, groups, intermediates, action)),
{
    lemma_after_csi(terminal, groups, intermediates, action);
}

pub(crate) proof fn lemma_after_print(terminal: TerminalModel, ch: char)
    ensures
        is_terminal(
            terminal.dispatched(DispatchModel::Print(ch)),
            terminal.with_screen(terminal.screen.printed(ch, columns(unicode_char_width(ch)))),
        ),
{
    reveal(TerminalModel::dispatched);
}

pub(crate) proof fn lemma_after_execute(terminal: TerminalModel, byte: u8)
    ensures
        is_terminal(
            terminal.dispatched(DispatchModel::Execute(byte)),
            terminal.with_screen(screen_executed(terminal.screen, byte)),
        ),
{
    reveal(TerminalModel::dispatched);
}

pub(crate) proof fn lemma_after_escape(terminal: TerminalModel, byte: u8)
    ensures
        is_terminal(terminal.dispatched(DispatchModel::Esc(byte)), terminal.escaped(byte)),
        is_screen(
            terminal.dispatched(DispatchModel::Esc(byte)).screen,
            screen_escaped(terminal.screen, byte),
        ),
{
    reveal(TerminalModel::dispatched);
}

} // verus!

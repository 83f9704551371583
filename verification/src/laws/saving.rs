//! Output between saving the cursor and restoring it.

use vstd::prelude::*;

use crate::laws::frames::{lemma_after_escape, lemma_screen_csi, same_frame, same_modes};
use crate::parser::{
    cursor_control, edit_control, erase_control, is_cursor_control, is_edit_control,
    is_erase_control, is_scroll_control, is_style_control, screen_after, screen_escaped,
    screen_executed, screen_in_mode, scroll_control, style_control, values_of, TerminalModel,
};
use crate::screen::model::{BufferModel, ScreenModel};
use crate::screen::width::{columns, unicode_char_width};
use crate::vt::DispatchModel;

verus! {

/// Whether a page still has the cursor and the attributes that were saved.
pub open spec fn same_saved_cursor(before: BufferModel, after: BufferModel) -> bool {
    &&& after.saved_cursor == before.saved_cursor
    &&& after.saved_attrs == before.saved_attrs
}

/// Whether both pages still have what was saved.
pub open spec fn keeps_saved_cursors(before: ScreenModel, after: ScreenModel) -> bool {
    &&& same_saved_cursor(before.primary, after.primary)
    &&& same_saved_cursor(before.alternate, after.alternate)
}

/// Whether a dispatch saves the cursor.
pub open spec fn saves_cursor(dispatch: DispatchModel) -> bool {
    match dispatch {
        DispatchModel::Csi(_, _, action) => action == 's',
        DispatchModel::Esc(byte) => byte == 0x37,
        _ => false,
    }
}

/// Whether a dispatch restores the cursor.
pub open spec fn restores_cursor(dispatch: DispatchModel) -> bool {
    match dispatch {
        DispatchModel::Csi(_, _, action) => action == 'u',
        DispatchModel::Esc(byte) => byte == 0x38,
        _ => false,
    }
}

/// Whether a dispatch resets the terminal.
pub open spec fn resets(dispatch: DispatchModel) -> bool {
    dispatch == DispatchModel::Esc(0x63)
}

/// Whether a dispatch asks for one of the two pages.
pub open spec fn asks_for_page(dispatch: DispatchModel) -> bool {
    match dispatch {
        DispatchModel::Csi(groups, intermediates, action) => {
            &&& action == 'h' || action == 'l'
            &&& intermediates.contains(0x3fu8)
            &&& values_of(groups).contains(1049)
        },
        _ => false,
    }
}

/// Whether one of these dispatches saves the cursor or resets the terminal.
pub open spec fn any_saves_or_resets(dispatches: Seq<DispatchModel>) -> bool {
    exists|i: int|
        0 <= i < dispatches.len() && (saves_cursor(#[trigger] dispatches[i]) || resets(
            dispatches[i],
        ))
}

/// Whether one of these dispatches asks for one of the two pages.
pub open spec fn any_asks_for_page(dispatches: Seq<DispatchModel>) -> bool {
    exists|i: int| 0 <= i < dispatches.len() && asks_for_page(#[trigger] dispatches[i])
}

/// What output that neither saves nor resets leaves alone: the saved cursors, and
/// the choice of the page if nothing asks for one.
spec fn stays(before: ScreenModel, after: ScreenModel) -> bool {
    keeps_saved_cursors(before, after) && after.use_alternate == before.use_alternate
}

proof fn lemma_scrolled_stays(screen: ScreenModel, n: int, top: int, bottom: int)
    ensures
        stays(screen, screen.scrolled_up(n, top, bottom)),
        stays(screen, screen.scrolled_down(n, top, bottom)),
{
}

proof fn lemma_wrapped_stays(screen: ScreenModel)
    ensures
        stays(screen, screen.wrapped()),
{
    let page = screen.active();
    let start = screen.with_cursor(page.cursor.at(page.cursor.row as int, 0));
    lemma_scrolled_stays(start, 1, page.scroll_top as int, page.scroll_bottom as int);
}

proof fn lemma_printed_stays(screen: ScreenModel, ch: char, width: int)
    ensures
        stays(screen, screen.printed(ch, width)),
{
    lemma_wrapped_stays(screen);
    let start = if screen.needs_wrap(width) {
        screen.wrapped()
    } else {
        screen
    };
    let written = start.stamped(ch, width);
    assert(stays(start, written));
    lemma_wrapped_stays(written);
    assert(stays(written, written.advanced(width)));
}

proof fn lemma_executed_stays(screen: ScreenModel, byte: u8)
    ensures
        stays(screen, screen_executed(screen, byte)),
{
}

proof fn lemma_cursor_control_stays(screen: ScreenModel, groups: Seq<Seq<u16>>, action: char)
    ensures
        stays(screen, cursor_control(screen, groups, action)),
{
    reveal(cursor_control);
}

proof fn lemma_erase_control_stays(screen: ScreenModel, groups: Seq<Seq<u16>>, action: char)
    ensures
        stays(screen, erase_control(screen, groups, action)),
{
    reveal(erase_control);
}

proof fn lemma_edit_control_stays(screen: ScreenModel, groups: Seq<Seq<u16>>, action: char)
    ensures
        stays(screen, edit_control(screen, groups, action)),
{
    reveal(edit_control);
}

proof fn lemma_scroll_control_stays(screen: ScreenModel, groups: Seq<Seq<u16>>, action: char)
    ensures
        stays(screen, scroll_control(screen, groups, action)),
{
    reveal(scroll_control);
}

proof fn lemma_style_control_stays(
    screen: ScreenModel,
    groups: Seq<Seq<u16>>,
    intermediates: Seq<u8>,
    action: char,
)
    requires
        action != 's',
    ensures
        stays(screen, style_control(screen, groups, intermediates, action)),
{
    reveal(style_control);
}

proof fn lemma_screen_after_stays(
    screen: ScreenModel,
    groups: Seq<Seq<u16>>,
    intermediates: Seq<u8>,
    action: char,
)
    requires
        action != 's',
    ensures
        stays(screen, screen_after(screen, groups, intermediates, action)),
{
    if is_cursor_control(action) {
        lemma_cursor_control_stays(screen, groups, action);
    } else if is_erase_control(action) {
        lemma_erase_control_stays(screen, groups, action);
    } else if is_edit_control(action) {
        lemma_edit_control_stays(screen, groups, action);
    } else if is_scroll_control(action) {
        lemma_scroll_control_stays(screen, groups, action);
    } else if is_style_control(action) {
        lemma_style_control_stays(screen, groups, intermediates, action);
    }
}

/// A mode keeps both saved cursors, and only 1049 chooses the page.
proof fn lemma_mode_stays(screen: ScreenModel, private: bool, mode: u16, enabled: bool)
    ensures
        keeps_saved_cursors(screen, screen_in_mode(screen, private, mode, enabled)),
        !private || mode != 1049 ==> stays(screen, screen_in_mode(screen, private, mode, enabled)),
{
}

proof fn lemma_modes_stay(terminal: TerminalModel, private: bool, modes: Seq<u16>, enabled: bool)
    ensures
        keeps_saved_cursors(
            terminal.screen,
            terminal.modes_set(private, modes, enabled).screen,
        ),
        !private || !modes.contains(1049) ==> stays(
            terminal.screen,
            terminal.modes_set(private, modes, enabled).screen,
        ),
    decreases modes.len(),
{
    if modes.len() > 0 {
        let fewer = modes.drop_last();
        lemma_modes_stay(terminal, private, fewer, enabled);
        let before = terminal.modes_set(private, fewer, enabled);
        lemma_mode_stays(before.screen, private, modes.last(), enabled);
        assert(modes[modes.len() - 1] == modes.last());
        if fewer.contains(1049) {
            let i = choose|i: int| 0 <= i < fewer.len() && fewer[i] == 1049;
            assert(modes[i] == 1049);
        }
    }
}

proof fn lemma_escaped_stays(screen: ScreenModel, byte: u8)
    requires
        byte != 0x37,
        byte != 0x63,
    ensures
        stays(screen, screen_escaped(screen, byte)),
{
}

proof fn lemma_dispatched_stays(terminal: TerminalModel, dispatch: DispatchModel)
    requires
        !saves_cursor(dispatch),
        !resets(dispatch),
    ensures
        keeps_saved_cursors(terminal.screen, terminal.dispatched(dispatch).screen),
        !asks_for_page(dispatch) ==> terminal.dispatched(dispatch).screen.use_alternate
            == terminal.screen.use_alternate,
{
    reveal(TerminalModel::dispatched);
    match dispatch {
        DispatchModel::Print(ch) => {
            lemma_printed_stays(terminal.screen, ch, columns(unicode_char_width(ch)));
        },
        DispatchModel::Execute(byte) => {
            lemma_executed_stays(terminal.screen, byte);
        },
        DispatchModel::Csi(groups, intermediates, action) => {
            let private = intermediates.contains(0x3fu8);
            lemma_screen_after_stays(terminal.screen, groups, intermediates, action);
            lemma_modes_stay(terminal, private, values_of(groups), action == 'h');
        },
        DispatchModel::Esc(byte) => {
            lemma_escaped_stays(terminal.screen, byte);
        },
    }
}

/// Output that neither saves the cursor nor resets the terminal keeps what was
/// saved, on both pages; if it does not ask for a page either, the same page is
/// shown.
pub proof fn law_output_keeps_saved_cursor(terminal: TerminalModel, dispatches: Seq<DispatchModel>)
    requires
        !any_saves_or_resets(dispatches),
    ensures
        keeps_saved_cursors(terminal.screen, terminal.all_dispatched(dispatches).screen),
        !any_asks_for_page(dispatches) ==> terminal.all_dispatched(
            dispatches,
        ).screen.use_alternate == terminal.screen.use_alternate,
    decreases dispatches.len(),
{
    if dispatches.len() > 0 {
        let fewer = dispatches.drop_last();
        let last = dispatches.len() - 1;
        assert(dispatches[last] == dispatches.last());
        assert forall|i: int| 0 <= i < fewer.len() implies !saves_cursor(#[trigger] fewer[i])
            && !resets(fewer[i]) by {
            assert(fewer[i] == dispatches[i]);
        }
        if any_asks_for_page(fewer) {
            let i = choose|i: int| 0 <= i < fewer.len() && asks_for_page(#[trigger] fewer[i]);
            assert(asks_for_page(dispatches[i]));
        }
        law_output_keeps_saved_cursor(terminal, fewer);
        lemma_dispatched_stays(terminal.all_dispatched(fewer), dispatches.last());
    }
}

/// What saving and restoring do to the screen.
proof fn lemma_saving_and_restoring(terminal: TerminalModel, dispatch: DispatchModel)
    ensures
        saves_cursor(dispatch) ==> terminal.dispatched(dispatch).screen
            == terminal.screen.with_saved_cursor(),
        restores_cursor(dispatch) ==> terminal.dispatched(dispatch).screen
            == terminal.screen.with_restored_cursor(),
{
    reveal(TerminalModel::dispatched);
    reveal(style_control);
}

/// Saving keeps the cursor and the attributes for later and leaves everything else as it
/// is; the other page keeps what was saved there.
pub proof fn law_saving_only_remembers(terminal: TerminalModel, save: DispatchModel)
    requires
        saves_cursor(save),
    ensures
        ({
            let before = terminal.screen;
            let after = terminal.dispatched(save);
            &&& same_modes(terminal, after)
            &&& same_frame(before, after.screen)
            &&& after.screen.dirty == before.dirty
            &&& after.screen.scrollback == before.scrollback
            &&& after.screen.active() == (BufferModel {
                saved_cursor: before.cursor(),
                saved_attrs: before.attrs(),
                ..before.active()
            })
        }),
{
    lemma_saving_and_restoring(terminal, save);
    match save {
        DispatchModel::Csi(groups, intermediates, action) => {
            lemma_screen_csi(terminal, groups, intermediates, action);
        },
        DispatchModel::Esc(byte) => {
            lemma_after_escape(terminal, byte);
        },
        _ => {},
    }
}

/// Restoring the cursor brings back its place, its look and the attributes as they
/// were when it was saved, whatever output came in between that neither saved again
/// nor reset the terminal, as long as the same page is shown. The lines and the
/// scrollback stay as that output left them.
pub proof fn law_output_cannot_lose_saved_cursor(
    terminal: TerminalModel,
    save: DispatchModel,
    dispatches: Seq<DispatchModel>,
    restore: DispatchModel,
)
    requires
        saves_cursor(save),
        restores_cursor(restore),
        !any_saves_or_resets(dispatches),
        !any_asks_for_page(dispatches) || terminal.dispatched(save).all_dispatched(
            dispatches,
        ).screen.use_alternate == terminal.screen.use_alternate,
    ensures
        ({
            let between = terminal.dispatched(save).all_dispatched(dispatches);
            let back = between.dispatched(restore);
            &&& back.screen.cursor() == terminal.screen.cursor()
            &&& back.screen.attrs() == terminal.screen.attrs()
            &&& back.screen.use_alternate == terminal.screen.use_alternate
            &&& back.screen.active().lines == between.screen.active().lines
            &&& back.screen.scrollback == between.screen.scrollback
        }),
{
    let saved = terminal.dispatched(save);
    let between = saved.all_dispatched(dispatches);
    lemma_saving_and_restoring(terminal, save);
    lemma_saving_and_restoring(between, restore);
    law_output_keeps_saved_cursor(saved, dispatches);
}

} // verus!

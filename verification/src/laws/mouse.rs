//! Selecting with the mouse, copying, and reports to programs that track it.

use vstd::prelude::*;

use crate::input::{ElementState, KeyEvent, MouseButton};
use crate::session::{shortcut_of, KeyActionModel, Session, Shortcut};

verus! {

/// The terminal after a drag with the left button from one cell to another,
/// both given as column and row.
pub open spec fn dragged(session: Session, from: (usize, usize), to: (usize, usize)) -> Session {
    session.pointed_at(from).clicked(ElementState::Pressed, MouseButton::Left).pointed_at(
        to,
    ).clicked(ElementState::Released, MouseButton::Left)
}

/// While the program does not track the mouse, dragging from one cell to another
/// selects what lies between them, and the copy key then copies that text.
pub proof fn law_dragged_text_is_copied(
    session: Session,
    from: (usize, usize),
    to: (usize, usize),
    event: KeyEvent,
)
    requires
        !session.tracks_mouse(),
        from != to,
        shortcut_of(event, session.modifiers, true) == Some(Shortcut::Copy),
    ensures
        ({
            let after = dragged(session, from, to);
            &&& after.selection.is_range()
            &&& !after.selection.dragging
            &&& after.screen == session.screen
            &&& after.key_action(event) == KeyActionModel::Copy(
                session.screen@.selection((from.1, from.0), (to.1, to.0)),
            )
        }),
{
}

/// A click without a drag selects nothing, and the copy key then interrupts the
/// program.
pub proof fn law_copy_without_selection_interrupts(
    session: Session,
    cell: (usize, usize),
    event: KeyEvent,
)
    requires
        !session.tracks_mouse(),
        shortcut_of(event, session.modifiers, true) == Some(Shortcut::Copy),
    ensures
        !dragged(session, cell, cell).selection.is_range(),
        dragged(session, cell, cell).key_action(event) == KeyActionModel::Command(seq![0x03u8]),
{
}

/// While the program tracks the mouse, the pointer does not select anything.
pub proof fn law_tracked_mouse_selects_nothing(
    session: Session,
    cell: (usize, usize),
    state: ElementState,
    button: MouseButton,
)
    requires
        session.tracks_mouse(),
    ensures
        session.pointed_at(cell).selection == session.selection,
        session.clicked(state, button).selection == session.selection,
{
}

/// A program that does not track the mouse is sent no reports.
pub proof fn law_untracked_mouse_is_not_reported(
    session: Session,
    cell: (usize, usize),
    state: ElementState,
    button: MouseButton,
)
    requires
        !session.tracks_mouse(),
    ensures
        !(session.move_action(cell) is Report),
        !(session.click_action(state, button) is Report),
{
}

} // verus!

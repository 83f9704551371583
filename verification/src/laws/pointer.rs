//! What the mouse, shortcuts and pasting do in a window.

use vstd::prelude::*;
use vstd::utf8::encode_utf8;

use crate::decimal::decimal;
use crate::input::{
    key_bytes, typed_text_bytes, ElementState, KeyEvent, ModifiersState, MouseButton,
};
use crate::laws::keys::presses_text;
use crate::parser::{MouseTracking, TerminalModes};
use crate::session::{
    mouse_report_bytes, nearest_place, stepped_font_size, FontSizeAction, KeyActionModel,
    PointerActionModel, RateMeter, Session, WheelDirection,
};

verus! {

/// The code of a mouse report with 4 added for shift, 8 for alt and 16 for control, as far
/// as a byte goes.
pub open spec fn is_modified_code(total: int, code: u8, modifiers: ModifiersState) -> bool {
    let shift = if modifiers.shift_key {
        4int
    } else {
        0
    };
    let alt = if modifiers.alt_key {
        8int
    } else {
        0
    };
    let control = if modifiers.control_key {
        16int
    } else {
        0
    };
    let sum = code + shift + alt + control;
    (sum <= 255 && total == sum) || (sum > 255 && total == 255)
}

/// A byte of a short mouse report: a coordinate counted from one with 32 added, at most
/// 255.
pub open spec fn is_short_coordinate(byte: u8, at: usize) -> bool {
    (at < 223 && byte == at + 33) || (at >= 223 && byte == 255)
}

/// A mouse report names the code with the modifiers, the column and the row, the last two
/// counted from one. The long form is `ESC [ <`, the three numbers, and `M` for a press
/// or `m` for a release; the short form is `ESC [ M` and three bytes.
pub proof fn law_mouse_reports_tell_code_and_cell(
    modes: TerminalModes,
    code: u8,
    pressed: bool,
    cell: (usize, usize),
    modifiers: ModifiersState,
    total: int,
)
    requires
        is_modified_code(total, code, modifiers),
        cell.0 < usize::MAX,
        cell.1 < usize::MAX,
    ensures
        ({
            let bytes = mouse_report_bytes(modes, code, pressed, cell, modifiers);
            let last: u8 = if pressed {
                0x4d
            } else {
                0x6d
            };
            &&& modes.sgr_mouse ==> bytes == seq![0x1bu8, 0x5b, 0x3c] + decimal(total as nat)
                + seq![0x3bu8] + decimal((cell.0 + 1) as nat) + seq![0x3bu8] + decimal(
                (cell.1 + 1) as nat,
            ) + seq![last]
            &&& !modes.sgr_mouse ==> {
                &&& bytes.len() == 6
                &&& bytes[0] == 0x1b && bytes[1] == 0x5b && bytes[2] == 0x4d
                &&& bytes[3] == (if total + 32 <= 255 {
                    total + 32
                } else {
                    255
                })
                &&& is_short_coordinate(bytes[4], cell.0)
                &&& is_short_coordinate(bytes[5], cell.1)
            }
        }),
{
    if modes.sgr_mouse {
        let bytes = mouse_report_bytes(modes, code, pressed, cell, modifiers);
        let last: u8 = if pressed {
            0x4d
        } else {
            0x6d
        };
        assert(bytes =~= seq![0x1bu8, 0x5b, 0x3c] + decimal(total as nat) + seq![0x3bu8] + decimal(
            (cell.0 + 1) as nat,
        ) + seq![0x3bu8] + decimal((cell.1 + 1) as nat) + seq![last]);
    }
}

/// The number of a button: left, middle and right; others have none.
pub open spec fn button_number(button: MouseButton) -> Option<u8> {
    match button {
        MouseButton::Left => Some(0),
        MouseButton::Middle => Some(1),
        MouseButton::Right => Some(2),
        MouseButton::Other => None,
    }
}

/// A program that tracks the mouse is told of each press with the number of the button
/// and of each release with 3, at the cell under the pointer. The button that is down is
/// remembered until one is let go. Other buttons are passed over.
pub proof fn law_clicks_are_reported(session: Session, button: MouseButton)
    requires
        session.parser.current_modes().mouse_tracking != MouseTracking::Off,
    ensures
        ({
            let modes = session.parser.current_modes();
            let down = session.clicked(ElementState::Pressed, button);
            let up = session.clicked(ElementState::Released, button);
            let told_down = session.click_action(ElementState::Pressed, button);
            let told_up = session.click_action(ElementState::Released, button);
            &&& down == (Session { held_button: down.held_button, ..session })
            &&& up == (Session { held_button: up.held_button, ..session })
            &&& button_number(button) is Some ==> {
                &&& told_down == PointerActionModel::Report(
                    mouse_report_bytes(
                        modes,
                        button_number(button)->0,
                        true,
                        session.pointer,
                        session.modifiers,
                    ),
                )
                &&& told_up == PointerActionModel::Report(
                    mouse_report_bytes(modes, 3, false, session.pointer, session.modifiers),
                )
                &&& down.held_button == Some(button)
                &&& up.held_button is None
            }
            &&& button_number(button) is None ==> {
                &&& told_down is Nothing && told_up is Nothing
                &&& down == session && up == session
            }
        }),
{
}

/// A move is reported if the program asked for all moves, or for those with a button
/// down while one is; the code is 32 and the number of the button, or 35 without one.
/// The pointer is then at the new cell, and nothing else changes.
pub proof fn law_moves_are_reported(session: Session, cell: (usize, usize))
    requires
        session.parser.current_modes().mouse_tracking != MouseTracking::Off,
    ensures
        ({
            let modes = session.parser.current_modes();
            let told = session.move_action(cell);
            let wanted = modes.mouse_tracking == MouseTracking::Motion || (modes.mouse_tracking
                == MouseTracking::Drag && session.held_button is Some);
            let code: u8 = match session.held_button {
                None => 35,
                Some(MouseButton::Left) => 32,
                Some(MouseButton::Middle) => 33,
                Some(MouseButton::Right) => 34,
                Some(MouseButton::Other) => 32,
            };
            &&& session.pointed_at(cell) == (Session { pointer: cell, ..session })
            &&& !wanted ==> told is Nothing
            &&& wanted ==> told == PointerActionModel::Report(
                mouse_report_bytes(modes, code, true, cell, session.modifiers),
            )
        }),
{
}

/// A turn of the wheel is reported as 64 for up and 65 for down to a program that tracks
/// the mouse, at the cell under the pointer, and to no other.
pub proof fn law_wheel_is_reported(session: Session)
    ensures
        ({
            let modes = session.parser.current_modes();
            let up = session.wheel_action(WheelDirection::Up);
            let down = session.wheel_action(WheelDirection::Down);
            let tracks = modes.mouse_tracking != MouseTracking::Off;
            &&& session.wheel_action(WheelDirection::Still) is Nothing
            &&& !tracks ==> up is Nothing && down is Nothing
            &&& tracks ==> up == PointerActionModel::Report(
                mouse_report_bytes(modes, 64, true, session.pointer, session.modifiers),
            )
            &&& tracks ==> down == PointerActionModel::Report(
                mouse_report_bytes(modes, 65, true, session.pointer, session.modifiers),
            )
        }),
{
}

/// While the program does not track the mouse, pressing the left button begins a
/// selection at the cell under the pointer, moves drag its other end along until the
/// button is let go, and other buttons do nothing. Positions have the row first.
pub proof fn law_left_button_selects(session: Session, cell: (usize, usize), button: MouseButton)
    requires
        session.parser.current_modes().mouse_tracking == MouseTracking::Off,
    ensures
        ({
            let here = (session.pointer.1, session.pointer.0);
            let down = session.clicked(ElementState::Pressed, button);
            let up = session.clicked(ElementState::Released, button);
            let moved = session.pointed_at(cell);
            &&& down == (Session { selection: down.selection, ..session })
            &&& up == (Session { selection: up.selection, ..session })
            &&& moved == (Session { pointer: cell, selection: moved.selection, ..session })
            &&& button != MouseButton::Left ==> down == session && up == session
            &&& button == MouseButton::Left ==> {
                &&& down.selection.anchor == Some(here)
                &&& down.selection.head == Some(here)
                &&& down.selection.dragging
                &&& up.selection.anchor == session.selection.anchor
                &&& up.selection.head == session.selection.head
                &&& !up.selection.dragging
                &&& session.click_action(ElementState::Pressed, button) is Redraw
                &&& session.click_action(ElementState::Released, button) is Redraw
            }
            &&& moved.selection.anchor == session.selection.anchor
            &&& moved.selection.dragging == session.selection.dragging
            &&& session.selection.dragging ==> moved.selection.head == Some((cell.1, cell.0))
            &&& !session.selection.dragging ==> moved.selection.head == session.selection.head
            &&& session.selection.dragging ==> session.move_action(cell) is Redraw
            &&& !session.selection.dragging ==> session.move_action(cell) is Nothing
        }),
{
}

/// Pasted text is sent as it is, or between `ESC [ 200 ~` and `ESC [ 201 ~` if the program
/// asked for that.
pub proof fn law_pasted_text_is_sent(session: Session, text: Seq<char>)
    ensures
        session.parser.current_modes().bracketed_paste ==> session.paste_bytes(text) == seq![
            0x1bu8,
            0x5b,
            0x32,
            0x30,
            0x30,
            0x7e,
        ] + encode_utf8(text) + seq![0x1bu8, 0x5b, 0x32, 0x30, 0x31, 0x7e],
        !session.parser.current_modes().bracketed_paste ==> session.paste_bytes(text)
            == encode_utf8(text),
{
}

/// Text from an input method is sent as it is, unless super or control is held or there
/// is none.
pub proof fn law_committed_text_is_sent(session: Session, text: Seq<char>)
    ensures
        ({
            let held = session.modifiers.super_key || session.modifiers.control_key;
            &&& !held && text.len() > 0 ==> session.commit_bytes(text) == Some(encode_utf8(text))
            &&& held || text.len() == 0 ==> session.commit_bytes(text) is None
        }),
{
}

/// The shortcuts with super: plus and minus change the font size, C copies the selection
/// or interrupts if there is none, V pastes, and with shift P shows the profiler and S
/// starts a command. The letters count in either case.
pub proof fn law_shortcuts(session: Session, event: KeyEvent, ch: char)
    requires
        presses_text(event, seq![ch]),
        session.modifiers.super_key,
    ensures
        ({
            let action = session.key_action(event);
            let selection = session.selection;
            let selected = selection.anchor is Some && selection.head is Some && selection.anchor
                != selection.head;
            let shift = session.modifiers.shift_key;
            &&& ch == '+' || ch == '=' ==> action == KeyActionModel::ChangeFontSize(
                FontSizeAction::Increase,
            )
            &&& ch == '-' || ch == '_' ==> action == KeyActionModel::ChangeFontSize(
                FontSizeAction::Decrease,
            )
            &&& (ch == 'c' || ch == 'C') && selected ==> action == KeyActionModel::Copy(
                session.screen@.selection(selection.anchor->0, selection.head->0),
            )
            &&& (ch == 'c' || ch == 'C') && !selected ==> action == KeyActionModel::Command(
                seq![0x03u8],
            )
            &&& ch == 'v' || ch == 'V' ==> action == KeyActionModel::Paste
            &&& shift && (ch == 'p' || ch == 'P') ==> action == KeyActionModel::ToggleProfiler
            &&& shift && (ch == 's' || ch == 'S') ==> action == KeyActionModel::Command(
                encode_utf8(
                    "yes 'ultraterm stress output 0123456789 abcdefghijklmnopqrstuvwxyz'\n"@,
                ),
            )
        }),
{
}

/// With super, a key that is no shortcut sends the sequence of a named key, or what it
/// gives with control or alt, but no text.
pub proof fn law_super_without_shortcut(session: Session, event: KeyEvent)
    requires
        session.modifiers.super_key,
        event.state == ElementState::Released || !(event.logical_key is Character) || (
        exists|ch: char| #[trigger]
            presses_text(event, seq![ch]) && is_no_shortcut(ch, session.modifiers.shift_key)),
    ensures
        ({
            let action = session.key_action(event);
            let app_cursor = session.parser.current_modes().app_cursor_keys;
            let sequence = key_bytes(event, session.modifiers, app_cursor);
            &&& sequence is Some ==> action == KeyActionModel::Send(sequence->0)
            &&& sequence is None ==> action is Ignore
        }),
{
}

/// Whether a character is no shortcut together with super.
pub open spec fn is_no_shortcut(ch: char, shift: bool) -> bool {
    &&& ch != '+' && ch != '=' && ch != '-' && ch != '_'
    &&& ch != 'c' && ch != 'C' && ch != 'v' && ch != 'V'
    &&& shift ==> ch != 'p' && ch != 'P' && ch != 's' && ch != 'S'
}

/// Without super a key sends its sequence, or the text it types if it has none, or
/// nothing.
pub proof fn law_keys_reach_the_program(session: Session, event: KeyEvent)
    requires
        !session.modifiers.super_key,
    ensures
        ({
            let action = session.key_action(event);
            let app_cursor = session.parser.current_modes().app_cursor_keys;
            let sequence = key_bytes(event, session.modifiers, app_cursor);
            let text = typed_text_bytes(
                match event.text {
                    Some(chars) => Some(chars@),
                    None => None,
                },
                event.state,
                session.modifiers,
            );
            &&& sequence is Some ==> action == KeyActionModel::Send(sequence->0)
            &&& sequence is None && text is Some ==> action == KeyActionModel::Send(text->0)
            &&& sequence is None && text is None ==> action is Ignore
        }),
{
}

/// Pasting ends the selection and the profiler key shows or hides the profiler; apart from
/// that a key changes nothing in the window.
pub proof fn law_keys_leave_the_window_alone(session: Session, event: KeyEvent)
    ensures
        ({
            let after = session.keyed(event);
            let action = session.key_action(event);
            &&& after == (Session {
                selection: after.selection,
                profiler_enabled: after.profiler_enabled,
                ..session
            })
            &&& action is Paste ==> after.selection.anchor is None && after.selection.head is None
                && !after.selection.dragging
            &&& !(action is Paste) ==> after.selection == session.selection
            &&& action is ToggleProfiler ==> after.profiler_enabled == !session.profiler_enabled
            &&& !(action is ToggleProfiler) ==> after.profiler_enabled == session.profiler_enabled
        }),
{
}

/// A step makes the font one point larger or smaller, between 8 and 64 points.
pub proof fn law_font_size_steps(size: int)
    requires
        8 <= size <= 64,
    ensures
        size < 64 ==> stepped_font_size(size, FontSizeAction::Increase) == size + 1,
        size == 64 ==> stepped_font_size(size, FontSizeAction::Increase) == 64,
        size > 8 ==> stepped_font_size(size, FontSizeAction::Decrease) == size - 1,
        size == 8 ==> stepped_font_size(size, FontSizeAction::Decrease) == 8,
{
}

/// The program is told of another size if the columns or the rows differ. Otherwise all
/// rows are drawn again if the layout moved; with another layout or font they are drawn
/// again in any case.
pub proof fn law_program_is_told_of_another_size(
    session: Session,
    cols: int,
    rows: int,
    layout_moved: bool,
)
    ensures
        ({
            let same = cols == session.screen@.cols && rows == session.screen@.rows;
            let resized = session.resize_action(cols, rows, layout_moved);
            let laid_out = session.relayout_action(cols, rows);
            &&& same ==> !resized.resize_pty && !laid_out.resize_pty
            &&& !same ==> resized.resize_pty && laid_out.resize_pty
            &&& same ==> resized.upload_all == layout_moved
            &&& !same ==> !resized.upload_all
            &&& laid_out.upload_all
        }),
{
}

/// A pointer within the grid is in the cell it is over, and one outside is in the nearest
/// cell.
pub proof fn law_pointer_is_in_the_nearest_cell(at: int, size: int)
    requires
        0 <= at,
        1 <= size,
    ensures
        at < size ==> nearest_place(at, size) == at,
        at >= size ==> nearest_place(at, size) == size - 1,
{
}

/// When a second is over, what arrived in it is the rate, and counting starts again.
pub proof fn law_rate_is_that_of_the_last_second(meter: RateMeter)
    ensures
        meter.closed_second().bytes_per_second == meter.bytes_this_second,
        meter.closed_second().bytes_this_second == 0,
{
}

/// Bytes that arrive are added up, and the rate of the last second stays meanwhile.
pub proof fn law_arriving_bytes_are_counted(meter: RateMeter, count: int)
    requires
        0 <= count,
        meter.bytes_this_second + count <= usize::MAX,
    ensures
        meter.counted(count).bytes_this_second == meter.bytes_this_second + count,
        meter.counted(count).bytes_per_second == meter.bytes_per_second,
{
}

} // verus!

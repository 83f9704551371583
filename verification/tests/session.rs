use ultraterm::input::{ElementState, Key, KeyEvent, ModifiersState, MouseButton, NamedKey};
use ultraterm::selection::{selection_spans, SelectionRange, SelectionState, Span};
use ultraterm::session::{
    clamped_cell, font_size_action_from_chars, font_size_shortcut_action, key_shortcut,
    mouse_report, next_font_size, FontSizeAction, KeyAction, PointerAction, RateMeter,
    ResizeAction, Session, Shortcut, WheelDirection, DEFAULT_FONT_SIZE, MAX_FONT_SIZE,
    MIN_FONT_SIZE, SCROLLBACK_LINES,
};

const SUPER: ModifiersState = ModifiersState {
    shift_key: false,
    control_key: false,
    alt_key: false,
    super_key: true,
};

const SUPER_SHIFT: ModifiersState = ModifiersState {
    shift_key: true,
    control_key: false,
    alt_key: false,
    super_key: true,
};

fn key(chars: &str) -> KeyEvent {
    KeyEvent {
        logical_key: Key::Character(chars.to_string()),
        text: Some(chars.to_string()),
        state: ElementState::Pressed,
    }
}

fn output(session: &mut Session, bytes: &[u8]) -> Option<Vec<Vec<u8>>> {
    session.on_output(&vec![bytes.to_vec()])
}

fn session_with(text: &[u8]) -> Session {
    let mut session = Session::new(20, 5);
    output(&mut session, text);
    session
}

fn drag(session: &mut Session, from: (usize, usize), to: (usize, usize)) {
    session.on_cursor_moved(from);
    session.on_mouse_input(ElementState::Pressed, MouseButton::Left);
    session.on_cursor_moved(to);
    session.on_mouse_input(ElementState::Released, MouseButton::Left);
}

fn report(action: PointerAction) -> Option<Vec<u8>> {
    match action {
        PointerAction::Report(bytes) => Some(bytes),
        _ => None,
    }
}

#[test]
fn font_size_shortcuts_match_cmd_plus_equals_minus() {
    assert_eq!(
        font_size_action_from_chars("+", ElementState::Pressed, SUPER),
        Some(FontSizeAction::Increase),
    );
    assert_eq!(
        font_size_action_from_chars("=", ElementState::Pressed, SUPER),
        Some(FontSizeAction::Increase),
    );
    assert_eq!(
        font_size_action_from_chars("-", ElementState::Pressed, SUPER),
        Some(FontSizeAction::Decrease),
    );
    assert_eq!(
        font_size_action_from_chars("_", ElementState::Pressed, SUPER),
        Some(FontSizeAction::Decrease),
    );
    assert_eq!(
        font_size_action_from_chars("+", ElementState::Pressed, ModifiersState::empty()),
        None,
    );
    assert_eq!(
        font_size_action_from_chars("+", ElementState::Released, SUPER),
        None,
    );
}

#[test]
fn only_single_characters_change_the_font_size() {
    assert_eq!(
        font_size_action_from_chars("++", ElementState::Pressed, SUPER),
        None
    );
    assert_eq!(
        font_size_action_from_chars("", ElementState::Pressed, SUPER),
        None
    );
    let enter = KeyEvent {
        logical_key: Key::Named(NamedKey::Enter),
        text: None,
        state: ElementState::Pressed,
    };
    assert_eq!(font_size_shortcut_action(&enter, SUPER), None);
    assert_eq!(
        font_size_shortcut_action(&key("="), SUPER),
        Some(FontSizeAction::Increase)
    );
}

#[test]
fn font_size_steps_stop_at_the_limits() {
    assert_eq!(
        next_font_size(DEFAULT_FONT_SIZE, FontSizeAction::Increase),
        Some(21)
    );
    assert_eq!(
        next_font_size(DEFAULT_FONT_SIZE, FontSizeAction::Decrease),
        Some(19)
    );
    assert_eq!(next_font_size(MAX_FONT_SIZE, FontSizeAction::Increase), None);
    assert_eq!(next_font_size(MIN_FONT_SIZE, FontSizeAction::Decrease), None);
    assert_eq!(next_font_size(100, FontSizeAction::Increase), Some(64));
}

#[test]
fn shortcuts_need_the_super_key() {
    assert_eq!(
        key_shortcut(&key("c"), SUPER, true),
        Some(Shortcut::Copy)
    );
    assert_eq!(
        key_shortcut(&key("C"), SUPER, false),
        Some(Shortcut::Interrupt)
    );
    assert_eq!(
        key_shortcut(&key("v"), SUPER, false),
        Some(Shortcut::Paste)
    );
    assert_eq!(key_shortcut(&key("p"), SUPER, false), None);
    assert_eq!(
        key_shortcut(&key("P"), SUPER_SHIFT, false),
        Some(Shortcut::ToggleProfiler)
    );
    assert_eq!(
        key_shortcut(&key("s"), SUPER_SHIFT, false),
        Some(Shortcut::Stress)
    );
    assert_eq!(
        key_shortcut(&key("c"), ModifiersState::empty(), true),
        None
    );
    assert_eq!(key_shortcut(&key("cc"), SUPER, true), None);
    let released = KeyEvent {
        state: ElementState::Released,
        ..key("c")
    };
    assert_eq!(key_shortcut(&released, SUPER, true), None);
}

#[test]
fn a_new_session_is_blank() {
    let session = Session::new(80, 24);
    assert_eq!((session.screen.cols(), session.screen.rows()), (80, 24));
    assert_eq!(session.modifiers, ModifiersState::empty());
    assert_eq!(session.selection, SelectionState::default());
    assert!(!session.profiler_enabled);
    assert_eq!(SCROLLBACK_LINES, 100_000);
}

#[test]
fn dragged_text_is_copied() {
    let mut session = session_with(b"one two\r\nthree");
    drag(&mut session, (4, 0), (2, 1));
    assert!(session.selection.has_selection());
    assert!(session.selection_fits());
    session.modifiers = SUPER;
    assert_eq!(session.shortcut_for(&key("c")), Some(Shortcut::Copy));
    match session.on_key(&key("c")) {
        KeyAction::Copy(text) => assert_eq!(text, "two\nthr"),
        _ => panic!("nothing was copied"),
    }
}

#[test]
fn copying_works_against_the_direction_of_reading() {
    let mut session = session_with(b"one two");
    drag(&mut session, (2, 0), (0, 0));
    session.modifiers = SUPER;
    match session.on_key(&key("c")) {
        KeyAction::Copy(text) => assert_eq!(text, "one"),
        _ => panic!("nothing was copied"),
    }
}

#[test]
fn copying_nothing_interrupts() {
    let mut session = session_with(b"one two");
    drag(&mut session, (2, 0), (2, 0));
    assert!(!session.selection.has_selection());
    session.modifiers = SUPER;
    match session.on_key(&key("c")) {
        KeyAction::Command(bytes) => assert_eq!(bytes, vec![0x03]),
        _ => panic!("not interrupted"),
    }
}

#[test]
fn pasting_follows_the_mode_and_ends_the_selection() {
    let mut session = session_with(b"one two");
    drag(&mut session, (0, 0), (2, 0));
    session.modifiers = SUPER;
    assert!(matches!(session.on_key(&key("v")), KeyAction::Paste));
    assert_eq!(session.selection, SelectionState::default());
    assert_eq!(session.paste_payload("hi"), b"hi".to_vec());
    output(&mut session, b"\x1b[?2004h");
    assert_eq!(
        session.paste_payload("hi"),
        b"\x1b[200~hi\x1b[201~".to_vec()
    );
}

#[test]
fn profiler_and_stress_shortcuts() {
    let mut session = Session::new(10, 2);
    session.modifiers = SUPER_SHIFT;
    assert!(matches!(
        session.on_key(&key("P")),
        KeyAction::ToggleProfiler
    ));
    assert!(session.profiler_enabled);
    session.on_key(&key("p"));
    assert!(!session.profiler_enabled);
    match session.on_key(&key("S")) {
        KeyAction::Command(bytes) => assert_eq!(
            bytes,
            b"yes 'ultraterm stress output 0123456789 abcdefghijklmnopqrstuvwxyz'\n".to_vec()
        ),
        _ => panic!("no stress command"),
    }
}

#[test]
fn keys_and_text_are_sent() {
    let mut session = Session::new(10, 2);
    match session.on_key(&key("a")) {
        KeyAction::Send(bytes) => assert_eq!(bytes, b"a".to_vec()),
        _ => panic!("text was not sent"),
    }
    let up = KeyEvent {
        logical_key: Key::Named(NamedKey::ArrowUp),
        text: None,
        state: ElementState::Pressed,
    };
    output(&mut session, b"\x1b[?1h");
    match session.on_key(&up) {
        KeyAction::Send(bytes) => assert_eq!(bytes, b"\x1bOA".to_vec()),
        _ => panic!("sequence was not sent"),
    }
    let released = KeyEvent {
        state: ElementState::Released,
        ..key("a")
    };
    assert!(matches!(session.on_key(&released), KeyAction::Ignore));
    session.modifiers = SUPER;
    assert!(matches!(
        session.on_key(&key("+")),
        KeyAction::ChangeFontSize(FontSizeAction::Increase)
    ));
    assert!(matches!(session.on_key(&key("x")), KeyAction::Ignore));
}

#[test]
fn committed_text_is_sent() {
    let mut session = Session::new(10, 2);
    assert_eq!(
        session.on_text_commit("日本"),
        Some("日本".as_bytes().to_vec())
    );
    assert_eq!(session.on_text_commit(""), None);
    session.modifiers = SUPER;
    assert_eq!(session.on_text_commit("x"), None);
}

#[test]
fn selection_follows_the_drag() {
    let mut session = Session::new(10, 5);
    assert!(matches!(
        session.on_cursor_moved((3, 1)),
        PointerAction::Nothing
    ));
    assert!(matches!(
        session.on_mouse_input(ElementState::Pressed, MouseButton::Right),
        PointerAction::Nothing
    ));
    assert!(matches!(
        session.on_mouse_input(ElementState::Pressed, MouseButton::Left),
        PointerAction::Redraw
    ));
    assert!(matches!(
        session.on_cursor_moved((5, 2)),
        PointerAction::Redraw
    ));
    assert!(matches!(
        session.on_mouse_input(ElementState::Released, MouseButton::Left),
        PointerAction::Redraw
    ));
    session.on_cursor_moved((9, 4));
    assert_eq!(
        session.selection.range(),
        Some(SelectionRange {
            start: (1, 3),
            end: (2, 5),
        })
    );
    assert!(matches!(
        session.on_mouse_wheel(WheelDirection::Up),
        PointerAction::Nothing
    ));
}

#[test]
fn selections_can_outlive_their_rows() {
    let mut session = Session::new(10, 5);
    drag(&mut session, (0, 0), (3, 4));
    assert!(session.selection_fits());
    session.apply_resize(10, 3, false);
    assert!(!session.selection_fits());
}

#[test]
fn clicks_are_reported_when_tracked() {
    let mut session = session_with(b"\x1b[?1000h");
    session.on_cursor_moved((4, 2));
    let down = session.on_mouse_input(ElementState::Pressed, MouseButton::Middle);
    assert_eq!(report(down), Some(vec![0x1b, b'[', b'M', 33, 37, 35]));
    assert_eq!(session.held_button, Some(MouseButton::Middle));
    let moved = session.on_cursor_moved((5, 2));
    assert_eq!(report(moved), None);
    let up = session.on_mouse_input(ElementState::Released, MouseButton::Middle);
    assert_eq!(report(up), Some(vec![0x1b, b'[', b'M', 35, 38, 35]));
    assert_eq!(session.held_button, None);
    let other = session.on_mouse_input(ElementState::Pressed, MouseButton::Other);
    assert_eq!(report(other), None);
    assert_eq!(session.selection, SelectionState::default());
}

#[test]
fn drags_and_moves_are_reported_when_tracked() {
    let mut session = session_with(b"\x1b[?1002;1006h");
    assert_eq!(report(session.on_cursor_moved((1, 1))), None);
    session.on_mouse_input(ElementState::Pressed, MouseButton::Right);
    assert_eq!(
        report(session.on_cursor_moved((2, 1))),
        Some(b"\x1b[<34;3;2M".to_vec())
    );
    session.on_mouse_input(ElementState::Released, MouseButton::Right);
    output(&mut session, b"\x1b[?1003h");
    assert_eq!(
        report(session.on_cursor_moved((0, 0))),
        Some(b"\x1b[<35;1;1M".to_vec())
    );
}

#[test]
fn the_wheel_is_reported_when_tracked() {
    let session = session_with(b"\x1b[?1000;1006h");
    assert_eq!(
        report(session.on_mouse_wheel(WheelDirection::Up)),
        Some(b"\x1b[<64;1;1M".to_vec())
    );
    assert_eq!(
        report(session.on_mouse_wheel(WheelDirection::Down)),
        Some(b"\x1b[<65;1;1M".to_vec())
    );
    assert_eq!(report(session.on_mouse_wheel(WheelDirection::Still)), None);
}

#[test]
fn reports_count_from_one() {
    let session = session_with(b"\x1b[?1006h");
    let bytes = mouse_report(
        session.parser.modes(),
        3,
        false,
        (usize::MAX, 0),
        ModifiersState::empty(),
    );
    assert_eq!(
        bytes,
        format!("\x1b[<3;{};1m", usize::MAX).into_bytes()
    );
}

#[test]
fn chunks_are_taken_as_one_piece() {
    let mut session = Session::new(20, 2);
    assert_eq!(session.on_output(&vec![]), None);
    assert_eq!(session.on_output(&vec![vec![], vec![]]), None);
    let replies = session.on_output(&vec![b"ab\x1b[".to_vec(), vec![], b"6n".to_vec()]);
    assert_eq!(replies, Some(vec![b"\x1b[1;3R".to_vec()]));
    assert_eq!(session.rates.bytes_this_second, 6);
    assert_eq!(output(&mut session, b"c"), Some(vec![]));
    assert_eq!(session.rates.bytes_this_second, 7);
}

#[test]
fn rates_are_counted_per_second() {
    let mut meter = RateMeter::new();
    meter.on_bytes(10);
    assert!(!meter.tick_rates(0));
    assert_eq!(meter.bytes_per_second, 0);
    meter.on_bytes(5);
    assert!(meter.tick_rates(1));
    assert_eq!(meter.bytes_per_second, 15);
    assert_eq!(meter.bytes_this_second, 0);
    meter.on_bytes(usize::MAX);
    meter.on_bytes(1);
    assert_eq!(meter.bytes_this_second, usize::MAX);
}

#[test]
fn resizing_tells_the_program() {
    let mut session = Session::new(10, 5);
    session.screen.take_dirty_rows();
    assert_eq!(
        session.apply_resize(10, 5, false),
        ResizeAction {
            resize_pty: false,
            upload_all: false,
        }
    );
    assert_eq!(session.screen.take_dirty_rows(), Vec::<usize>::new());
    assert_eq!(
        session.apply_resize(10, 5, true),
        ResizeAction {
            resize_pty: false,
            upload_all: true,
        }
    );
    assert_eq!(session.screen.take_dirty_rows().len(), 5);
    assert_eq!(
        session.apply_resize(12, 4, true),
        ResizeAction {
            resize_pty: true,
            upload_all: false,
        }
    );
    assert_eq!((session.screen.cols(), session.screen.rows()), (12, 4));
    session.screen.take_dirty_rows();
    assert_eq!(
        session.relayout(12, 4),
        ResizeAction {
            resize_pty: false,
            upload_all: true,
        }
    );
    assert_eq!(session.screen.take_dirty_rows().len(), 4);
    assert!(session.relayout(6, 2).resize_pty);
    assert_eq!((session.screen.cols(), session.screen.rows()), (6, 2));
}

#[test]
fn cells_are_clamped_to_the_grid() {
    assert_eq!(clamped_cell(3, 4, 10, 10), (3, 4));
    assert_eq!(clamped_cell(30, 40, 10, 5), (9, 4));
    assert_eq!(clamped_cell(1, 1, 0, 0), (0, 0));
}

#[test]
fn selection_state_steps() {
    let mut selection = SelectionState::default();
    assert_eq!(selection.range(), None);
    selection.update_head((1, 1));
    assert_eq!(selection, SelectionState::default());
    selection.set_anchor((0, 2));
    assert!(!selection.has_selection());
    selection.update_head((1, 1));
    assert!(selection.has_selection());
    selection.end_drag();
    selection.update_head((3, 3));
    assert_eq!(
        selection.range(),
        Some(SelectionRange {
            start: (0, 2),
            end: (1, 1),
        })
    );
    assert!(selection.fits(2));
    assert!(!selection.fits(1));
    selection.clear();
    assert_eq!(selection, SelectionState::default());
}

#[test]
fn spans_cover_the_selection() {
    let session = Session::new(10, 4);
    let range = SelectionRange {
        start: (2, 3),
        end: (0, 7),
    };
    assert_eq!(
        selection_spans(&session.screen, range),
        vec![
            Span {
                row: 0,
                from: 7,
                to: 9,
            },
            Span {
                row: 1,
                from: 0,
                to: 9,
            },
            Span {
                row: 2,
                from: 0,
                to: 3,
            },
        ]
    );
    let outside = SelectionRange {
        start: (2, 50),
        end: (9, 0),
    };
    assert_eq!(
        selection_spans(&session.screen, outside),
        vec![
            Span {
                row: 2,
                from: 9,
                to: 9,
            },
            Span {
                row: 3,
                from: 0,
                to: 9,
            },
        ]
    );
    let below = SelectionRange {
        start: (7, 0),
        end: (9, 0),
    };
    assert_eq!(selection_spans(&session.screen, below), vec![]);
}

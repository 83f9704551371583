use ultraterm::input::{
    arrow_sequence, control_code, csi_or_ss3, csi_with_mod, encode_legacy_mouse, encode_sgr_mouse,
    function_key_sequence, key_event_to_bytes, keyboard_text_bytes, mouse_button_code,
    wrap_bracketed_paste, ElementState, Key, KeyEvent, ModifiersState, MouseButton, NamedKey,
};

const CONTROL: ModifiersState = ModifiersState {
    shift_key: false,
    control_key: true,
    alt_key: false,
    super_key: false,
};

const ALT: ModifiersState = ModifiersState {
    shift_key: false,
    control_key: false,
    alt_key: true,
    super_key: false,
};

const SHIFT: ModifiersState = ModifiersState {
    shift_key: true,
    control_key: false,
    alt_key: false,
    super_key: false,
};

fn named(key: NamedKey) -> KeyEvent {
    KeyEvent {
        logical_key: Key::Named(key),
        text: None,
        state: ElementState::Pressed,
    }
}

fn character(chars: &str) -> KeyEvent {
    KeyEvent {
        logical_key: Key::Character(chars.to_string()),
        text: Some(chars.to_string()),
        state: ElementState::Pressed,
    }
}

fn sent(event: &KeyEvent, modifiers: ModifiersState, app_cursor: bool) -> Option<Vec<u8>> {
    key_event_to_bytes(event, modifiers, app_cursor)
}

#[test]
fn keyboard_text_bytes_accepts_plain_text() {
    let out = keyboard_text_bytes(Some("abc"), ElementState::Pressed, ModifiersState::empty());
    assert_eq!(out, Some(b"abc".to_vec()));
}

#[test]
fn keyboard_text_bytes_rejects_control_text() {
    let out = keyboard_text_bytes(Some("\r"), ElementState::Pressed, ModifiersState::empty());
    assert_eq!(out, None);
}

#[test]
fn keyboard_text_bytes_rejects_with_ctrl_modifier() {
    let out = keyboard_text_bytes(Some("c"), ElementState::Pressed, CONTROL);
    assert_eq!(out, None);
}

#[test]
fn keyboard_text_bytes_rejects_key_release() {
    let out = keyboard_text_bytes(Some("a"), ElementState::Released, ModifiersState::empty());
    assert_eq!(out, None);
}

#[test]
fn keyboard_text_bytes_rejects_missing_and_empty_text() {
    let none = ModifiersState::empty();
    assert_eq!(keyboard_text_bytes(None, ElementState::Pressed, none), None);
    assert_eq!(
        keyboard_text_bytes(Some(""), ElementState::Pressed, none),
        None
    );
    assert_eq!(
        keyboard_text_bytes(Some("a"), ElementState::Pressed, ALT),
        None
    );
}

#[test]
fn control_characters_are_the_c0_and_c1_codes_and_delete() {
    let none = ModifiersState::empty();
    for code in [0x00_u32, 0x1f, 0x7f, 0x80, 0x9f] {
        let text = char::from_u32(code).map(String::from).unwrap_or_default();
        let out = keyboard_text_bytes(Some(&text), ElementState::Pressed, none);
        assert_eq!(out, None, "code {code:#x}");
    }
    for code in [0x20_u32, 0x7e, 0xa0, 0x754c] {
        let text = char::from_u32(code).map(String::from).unwrap_or_default();
        let out = keyboard_text_bytes(Some(&text), ElementState::Pressed, none);
        assert_eq!(out, Some(text.as_bytes().to_vec()), "code {code:#x}");
    }
}

#[test]
fn arrows_follow_the_cursor_key_mode() {
    let none = ModifiersState::empty();
    let up = named(NamedKey::ArrowUp);
    assert_eq!(sent(&up, none, false), Some(b"\x1b[A".to_vec()));
    assert_eq!(sent(&up, none, true), Some(b"\x1bOA".to_vec()));
    assert_eq!(sent(&up, CONTROL, true), Some(b"\x1b[1;5A".to_vec()));
    let left = named(NamedKey::ArrowLeft);
    assert_eq!(sent(&left, SHIFT, false), Some(b"\x1b[1;2D".to_vec()));
    assert_eq!(arrow_sequence(b'C', 8, false), b"\x1b[1;8C".to_vec());
}

#[test]
fn navigation_keys_send_their_sequences() {
    let none = ModifiersState::empty();
    assert_eq!(
        sent(&named(NamedKey::Home), none, true),
        Some(b"\x1b[H".to_vec())
    );
    assert_eq!(
        sent(&named(NamedKey::End), ALT, false),
        Some(b"\x1b[1;3F".to_vec())
    );
    assert_eq!(
        sent(&named(NamedKey::Insert), none, false),
        Some(b"\x1b[2~".to_vec())
    );
    assert_eq!(
        sent(&named(NamedKey::Delete), none, false),
        Some(b"\x1b[3~".to_vec())
    );
    assert_eq!(
        sent(&named(NamedKey::PageUp), CONTROL, false),
        Some(b"\x1b[5;5~".to_vec())
    );
    assert_eq!(
        sent(&named(NamedKey::PageDown), none, false),
        Some(b"\x1b[6~".to_vec())
    );
    assert_eq!(csi_or_ss3(b'H', 1), b"\x1b[H".to_vec());
    assert_eq!(csi_with_mod(6, 2), b"\x1b[6;2~".to_vec());
}

#[test]
fn function_keys_have_letters_then_numbers() {
    let codes = [15, 17, 18, 19, 20, 21, 23, 24];
    for (i, code) in codes.iter().enumerate() {
        let key = i as u8 + 5;
        let plain = format!("\x1b[{code}~").into_bytes();
        assert_eq!(function_key_sequence(key, 1), Some(plain));
        let shifted = format!("\x1b[{code};2~").into_bytes();
        assert_eq!(function_key_sequence(key, 2), Some(shifted));
    }
    for (i, letter) in ['P', 'Q', 'R', 'S'].iter().enumerate() {
        let key = i as u8 + 1;
        let plain = format!("\x1bO{letter}").into_bytes();
        assert_eq!(function_key_sequence(key, 1), Some(plain));
        let modified = format!("\x1b[1;6{letter}").into_bytes();
        assert_eq!(function_key_sequence(key, 6), Some(modified));
    }
    assert_eq!(function_key_sequence(0, 1), None);
    assert_eq!(function_key_sequence(13, 1), None);
    let none = ModifiersState::empty();
    assert_eq!(
        sent(&named(NamedKey::F12), none, false),
        Some(b"\x1b[24~".to_vec())
    );
}

#[test]
fn editing_keys_send_single_bytes() {
    let none = ModifiersState::empty();
    assert_eq!(sent(&named(NamedKey::Enter), none, false), Some(vec![0x0d]));
    assert_eq!(sent(&named(NamedKey::Tab), none, false), Some(vec![0x09]));
    assert_eq!(
        sent(&named(NamedKey::Tab), SHIFT, false),
        Some(b"\x1b[Z".to_vec())
    );
    assert_eq!(
        sent(&named(NamedKey::Backspace), none, false),
        Some(vec![0x7f])
    );
    assert_eq!(sent(&named(NamedKey::Escape), none, false), Some(vec![0x1b]));
}

#[test]
fn released_and_unknown_keys_send_nothing() {
    let none = ModifiersState::empty();
    let released = KeyEvent {
        state: ElementState::Released,
        ..named(NamedKey::Enter)
    };
    assert_eq!(sent(&released, none, false), None);
    let other = KeyEvent {
        logical_key: Key::Other,
        text: None,
        state: ElementState::Pressed,
    };
    assert_eq!(sent(&other, none, false), None);
    assert_eq!(sent(&character("a"), none, false), None);
    assert_eq!(sent(&character(""), CONTROL, false), None);
    assert_eq!(sent(&character("ab"), CONTROL, false), None);
}

#[test]
fn control_and_alt_change_characters() {
    assert_eq!(sent(&character("c"), CONTROL, false), Some(vec![0x03]));
    assert_eq!(sent(&character("C"), CONTROL, false), Some(vec![0x03]));
    assert_eq!(sent(&character("é"), CONTROL, false), None);
    assert_eq!(sent(&character("x"), ALT, false), Some(b"\x1bx".to_vec()));
    assert_eq!(
        sent(&character("é"), ALT, false),
        Some(vec![0x1b, 0xc3, 0xa9])
    );
}

#[test]
fn control_codes_cover_letters_and_punctuation() {
    assert_eq!(control_code('@'), Some(0));
    assert_eq!(control_code(' '), Some(0));
    assert_eq!(control_code('a'), Some(1));
    assert_eq!(control_code('Z'), Some(26));
    assert_eq!(control_code('['), Some(27));
    assert_eq!(control_code('\\'), Some(28));
    assert_eq!(control_code(']'), Some(29));
    assert_eq!(control_code('^'), Some(30));
    assert_eq!(control_code('_'), Some(31));
    assert_eq!(control_code('1'), None);
    assert_eq!(control_code('{'), None);
}

#[test]
fn pasted_text_is_bracketed() {
    assert_eq!(
        wrap_bracketed_paste("ls é"),
        b"\x1b[200~ls \xc3\xa9\x1b[201~".to_vec()
    );
    assert_eq!(wrap_bracketed_paste(""), b"\x1b[200~\x1b[201~".to_vec());
}

#[test]
fn sgr_mouse_reports_are_decimal() {
    let none = ModifiersState::empty();
    assert_eq!(
        encode_sgr_mouse(0, true, 12, 305, none),
        b"\x1b[<0;12;305M".to_vec()
    );
    assert_eq!(
        encode_sgr_mouse(3, false, 1, 1, none),
        b"\x1b[<3;1;1m".to_vec()
    );
    let all = ModifiersState {
        shift_key: true,
        control_key: true,
        alt_key: true,
        super_key: true,
    };
    assert_eq!(
        encode_sgr_mouse(2, true, 1, 2, all),
        b"\x1b[<30;1;2M".to_vec()
    );
    assert_eq!(
        encode_sgr_mouse(250, true, 1, 2, all),
        b"\x1b[<255;1;2M".to_vec()
    );
}

#[test]
fn legacy_mouse_reports_stop_at_their_limits() {
    let none = ModifiersState::empty();
    assert_eq!(
        encode_legacy_mouse(0, 1, 2, none),
        vec![0x1b, b'[', b'M', 32, 33, 34]
    );
    assert_eq!(
        encode_legacy_mouse(64, 223, 500, SHIFT),
        vec![0x1b, b'[', b'M', 100, 255, 255]
    );
    assert_eq!(
        encode_legacy_mouse(240, 1, 1, none),
        vec![0x1b, b'[', b'M', 255, 33, 33]
    );
}

#[test]
fn three_buttons_have_codes() {
    assert_eq!(mouse_button_code(MouseButton::Left), Some(0));
    assert_eq!(mouse_button_code(MouseButton::Middle), Some(1));
    assert_eq!(mouse_button_code(MouseButton::Right), Some(2));
    assert_eq!(mouse_button_code(MouseButton::Other), None);
}

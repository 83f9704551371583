//! What keys, pasted text and the mouse send to the program.

use vstd::prelude::*;
use vstd::string::StrSliceExecFns;
use vstd::utf8::encode_utf8;

use crate::decimal::{decimal, push_decimal};
use crate::screen::model::min;
use crate::screen::width::is_control_code;

verus! {

/// `char::is_control` tells whether a character has the general category of
/// control codes, which are the C0 codes, delete and the C1 codes.
pub assume_specification[ char::is_control ](ch: char) -> (control: bool)
    ensures
        control == is_control_code(ch),
;

#[derive(Clone, Copy, Debug, PartialEq, Eq, Structural)]
pub enum ElementState {
    Pressed,
    Released,
}

/// The modifier keys that are held down.
#[derive(Clone, Copy, Debug, PartialEq, Eq, Structural)]
pub struct ModifiersState {
    pub shift_key: bool,
    pub control_key: bool,
    pub alt_key: bool,
    pub super_key: bool,
}

impl ModifiersState {
    /// No modifier held down.
    #[verifier::allow_in_spec]
    pub fn empty() -> Self
        returns
            (ModifiersState {
                shift_key: false,
                control_key: false,
                alt_key: false,
                super_key: false,
            }),
    {
        ModifiersState { shift_key: false, control_key: false, alt_key: false, super_key: false }
    }
}

/// The keys that send a sequence of their own.
#[derive(Clone, Copy, Debug, PartialEq, Eq, Structural)]
pub enum NamedKey {
    ArrowUp,
    ArrowDown,
    ArrowRight,
    ArrowLeft,
    Home,
    End,
    Insert,
    Delete,
    PageUp,
    PageDown,
    F1,
    F2,
    F3,
    F4,
    F5,
    F6,
    F7,
    F8,
    F9,
    F10,
    F11,
    F12,
    Enter,
    Tab,
    Backspace,
    Escape,
}

/// What a key means under the current layout.
#[derive(Clone, Debug)]
pub enum Key {
    Named(NamedKey),
    Character(String),
    Other,
}

/// A key that went down or up, with the text it would type.
#[derive(Clone, Debug)]
pub struct KeyEvent {
    pub logical_key: Key,
    pub text: Option<String>,
    pub state: ElementState,
}

#[derive(Clone, Copy, Debug, PartialEq, Eq, Structural)]
pub enum MouseButton {
    Left,
    Middle,
    Right,
    Other,
}

/// The bytes of an optional vector.
pub open spec fn opt_bytes(bytes: Option<Vec<u8>>) -> Option<Seq<u8>> {
    match bytes {
        Some(found) => Some(found@),
        None => None,
    }
}

/// The number that stands for the modifiers in a key sequence; one means none.
pub open spec fn modifier_number(modifiers: ModifiersState) -> int {
    1 + (if modifiers.shift_key {
        1int
    } else {
        0
    }) + (if modifiers.alt_key {
        2int
    } else {
        0
    }) + (if modifiers.control_key {
        4int
    } else {
        0
    })
}

/// `ESC [`.
pub open spec fn csi() -> Seq<u8> {
    seq![0x1bu8, 0x5b]
}

/// `ESC O`.
pub open spec fn ss3() -> Seq<u8> {
    seq![0x1bu8, 0x4f]
}

/// `ESC [ 1 ; modifiers final`.
pub open spec fn modified_key(modifier: int, last: u8) -> Seq<u8> {
    csi() + seq![0x31u8, 0x3b] + decimal(modifier as nat) + seq![last]
}

/// `ESC [ code ~`, with the modifiers behind the code if there are any.
pub open spec fn numbered_key(code: int, modifier: int) -> Seq<u8> {
    if modifier == 1 {
        csi() + decimal(code as nat) + seq![0x7eu8]
    } else {
        csi() + decimal(code as nat) + seq![0x3bu8] + decimal(modifier as nat) + seq![0x7eu8]
    }
}

/// An arrow key; without modifiers, programs can ask for the short `ESC O` form.
pub open spec fn arrow_key(last: u8, modifier: int, app_cursor: bool) -> Seq<u8> {
    if modifier == 1 {
        if app_cursor {
            ss3() + seq![last]
        } else {
            csi() + seq![last]
        }
    } else {
        modified_key(modifier, last)
    }
}

/// Home and End.
pub open spec fn edge_key(last: u8, modifier: int) -> Seq<u8> {
    if modifier == 1 {
        csi() + seq![last]
    } else {
        modified_key(modifier, last)
    }
}

/// The code that a function key from F5 on is sent as.
pub open spec fn function_key_code(key: int) -> int {
    if key == 5 {
        15
    } else if key <= 10 {
        key + 11
    } else {
        key + 12
    }
}

/// A function key; the first four have letters, the others have numbers.
pub open spec fn function_key(key: int, modifier: int) -> Option<Seq<u8>> {
    if 1 <= key <= 4 {
        let last = (0x4f + key) as u8;
        Some(
            if modifier == 1 {
                ss3() + seq![last]
            } else {
                modified_key(modifier, last)
            },
        )
    } else if 5 <= key <= 12 {
        Some(numbered_key(function_key_code(key), modifier))
    } else {
        None
    }
}

/// The control code that a character gives together with the control key.
pub open spec fn control_byte(ch: char) -> Option<u8> {
    let c = ch as u32;
    if c == 0x40 || c == 0x20 {
        Some(0u8)
    } else if 0x61 <= c <= 0x7a {
        Some((c - 0x60) as u8)
    } else if 0x41 <= c <= 0x5a {
        Some((c - 0x40) as u8)
    } else if 0x5b <= c <= 0x5f {
        Some((c - 0x40) as u8)
    } else {
        None
    }
}

/// What a named key sends.
pub open spec fn named_key_bytes(
    key: NamedKey,
    modifiers: ModifiersState,
    app_cursor: bool,
) -> Option<Seq<u8>> {
    let modifier = modifier_number(modifiers);
    match key {
        NamedKey::ArrowUp => Some(arrow_key(0x41, modifier, app_cursor)),
        NamedKey::ArrowDown => Some(arrow_key(0x42, modifier, app_cursor)),
        NamedKey::ArrowRight => Some(arrow_key(0x43, modifier, app_cursor)),
        NamedKey::ArrowLeft => Some(arrow_key(0x44, modifier, app_cursor)),
        NamedKey::Home => Some(edge_key(0x48, modifier)),
        NamedKey::End => Some(edge_key(0x46, modifier)),
        NamedKey::Insert => Some(numbered_key(2, modifier)),
        NamedKey::Delete => Some(numbered_key(3, modifier)),
        NamedKey::PageUp => Some(numbered_key(5, modifier)),
        NamedKey::PageDown => Some(numbered_key(6, modifier)),
        NamedKey::F1 => function_key(1, modifier),
        NamedKey::F2 => function_key(2, modifier),
        NamedKey::F3 => function_key(3, modifier),
        NamedKey::F4 => function_key(4, modifier),
        NamedKey::F5 => function_key(5, modifier),
        NamedKey::F6 => function_key(6, modifier),
        NamedKey::F7 => function_key(7, modifier),
        NamedKey::F8 => function_key(8, modifier),
        NamedKey::F9 => function_key(9, modifier),
        NamedKey::F10 => function_key(10, modifier),
        NamedKey::F11 => function_key(11, modifier),
        NamedKey::F12 => function_key(12, modifier),
        NamedKey::Enter => Some(seq![0x0du8]),
        NamedKey::Tab => Some(
            if modifiers.shift_key {
                csi() + seq![0x5au8]
            } else {
                seq![0x09u8]
            },
        ),
        NamedKey::Backspace => Some(seq![0x7fu8]),
        NamedKey::Escape => Some(seq![0x1bu8]),
    }
}

/// What a character key sends: a control code with the control key, the
/// character behind an escape with the alt key. Plain characters and keys with
/// several characters send nothing here.
pub open spec fn character_key_bytes(
    chars: Seq<char>,
    modifiers: ModifiersState,
) -> Option<Seq<u8>> {
    if chars.len() != 1 {
        None
    } else if modifiers.control_key {
        match control_byte(chars[0]) {
            Some(code) => Some(seq![code]),
            None => None,
        }
    } else if modifiers.alt_key {
        Some(seq![0x1bu8] + encode_utf8(chars))
    } else {
        None
    }
}

/// What a key event sends. Only keys that go down send anything.
pub open spec fn key_bytes(
    event: KeyEvent,
    modifiers: ModifiersState,
    app_cursor: bool,
) -> Option<Seq<u8>> {
    if event.state != ElementState::Pressed {
        None
    } else {
        match event.logical_key {
            Key::Named(key) => named_key_bytes(key, modifiers, app_cursor),
            Key::Character(chars) => character_key_bytes(chars@, modifiers),
            Key::Other => None,
        }
    }
}

/// `ESC [ 1 ; modifiers final`.
fn modified_key_sequence(modifier_param: u8, last: u8) -> (bytes: Vec<u8>)
    ensures
        bytes@ == modified_key(modifier_param as int, last),
{
    let mut bytes: Vec<u8> = vec![0x1b, 0x5b, 0x31, 0x3b];
    push_decimal(&mut bytes, modifier_param as u64);
    bytes.push(last);
    assert(bytes@ =~= modified_key(modifier_param as int, last));
    bytes
}

pub fn arrow_sequence(last: u8, modifier_param: u8, app_cursor: bool) -> (bytes: Vec<u8>)
    ensures
        bytes@ == arrow_key(last, modifier_param as int, app_cursor),
{
    if modifier_param == 1 {
        let intro: u8 = if app_cursor {
            0x4f
        } else {
            0x5b
        };
        let bytes: Vec<u8> = vec![0x1b, intro, last];
        assert(bytes@ =~= arrow_key(last, modifier_param as int, app_cursor));
        return bytes;
    }
    modified_key_sequence(modifier_param, last)
}

pub fn csi_or_ss3(last: u8, modifier_param: u8) -> (bytes: Vec<u8>)
    ensures
        bytes@ == edge_key(last, modifier_param as int),
{
    if modifier_param == 1 {
        let bytes: Vec<u8> = vec![0x1b, 0x5b, last];
        assert(bytes@ =~= edge_key(last, modifier_param as int));
        return bytes;
    }
    modified_key_sequence(modifier_param, last)
}

pub fn csi_with_mod(code: u8, modifier_param: u8) -> (bytes: Vec<u8>)
    ensures
        bytes@ == numbered_key(code as int, modifier_param as int),
{
    let mut bytes: Vec<u8> = vec![0x1b, 0x5b];
    push_decimal(&mut bytes, code as u64);
    if modifier_param != 1 {
        bytes.push(0x3b);
        push_decimal(&mut bytes, modifier_param as u64);
    }
    bytes.push(0x7e);
    assert(bytes@ =~= numbered_key(code as int, modifier_param as int));
    bytes
}

pub fn function_key_sequence(key: u8, modifier_param: u8) -> (bytes: Option<Vec<u8>>)
    ensures
        opt_bytes(bytes) == function_key(key as int, modifier_param as int),
{
    match key {
        1..=4 => {
            let last: u8 = 0x4f + key;
            if modifier_param == 1 {
                let bytes: Vec<u8> = vec![0x1b, 0x4f, last];
                assert(bytes@ =~= ss3() + seq![last]);
                Some(bytes)
            } else {
                Some(modified_key_sequence(modifier_param, last))
            }
        },
        5 => Some(csi_with_mod(15, modifier_param)),
        6..=10 => Some(csi_with_mod(key + 11, modifier_param)),
        11..=12 => Some(csi_with_mod(key + 12, modifier_param)),
        _ => None,
    }
}

pub fn control_code(ch: char) -> (code: Option<u8>)
    ensures
        code == control_byte(ch),
{
    let c: u32 = ch as u32;
    if c == 0x40 || c == 0x20 {
        Some(0)
    } else if 0x61 <= c && c <= 0x7a {
        Some((c - 0x60) as u8)
    } else if 0x41 <= c && c <= 0x5f {
        Some((c - 0x40) as u8)
    } else {
        None
    }
}

/// Wraps one sequence.
fn single(byte: u8) -> (bytes: Option<Vec<u8>>)
    ensures
        opt_bytes(bytes) == Some(seq![byte]),
{
    let bytes: Vec<u8> = vec![byte];
    assert(bytes@ =~= seq![byte]);
    Some(bytes)
}

fn named_key_sequence(key: NamedKey, modifiers: ModifiersState, app_cursor: bool) -> (bytes: Option<
    Vec<u8>,
>)
    ensures
        opt_bytes(bytes) == named_key_bytes(key, modifiers, app_cursor),
{
    let shift: u8 = if modifiers.shift_key {
        1
    } else {
        0
    };
    let alt: u8 = if modifiers.alt_key {
        2
    } else {
        0
    };
    let ctrl: u8 = if modifiers.control_key {
        4
    } else {
        0
    };
    let modifier_param: u8 = 1 + shift + alt + ctrl;
    match key {
        NamedKey::ArrowUp => Some(arrow_sequence(0x41, modifier_param, app_cursor)),
        NamedKey::ArrowDown => Some(arrow_sequence(0x42, modifier_param, app_cursor)),
        NamedKey::ArrowRight => Some(arrow_sequence(0x43, modifier_param, app_cursor)),
        NamedKey::ArrowLeft => Some(arrow_sequence(0x44, modifier_param, app_cursor)),
        NamedKey::Home => Some(csi_or_ss3(0x48, modifier_param)),
        NamedKey::End => Some(csi_or_ss3(0x46, modifier_param)),
        NamedKey::Insert => Some(csi_with_mod(2, modifier_param)),
        NamedKey::Delete => Some(csi_with_mod(3, modifier_param)),
        NamedKey::PageUp => Some(csi_with_mod(5, modifier_param)),
        NamedKey::PageDown => Some(csi_with_mod(6, modifier_param)),
        NamedKey::F1 => function_key_sequence(1, modifier_param),
        NamedKey::F2 => function_key_sequence(2, modifier_param),
        NamedKey::F3 => function_key_sequence(3, modifier_param),
        NamedKey::F4 => function_key_sequence(4, modifier_param),
        NamedKey::F5 => function_key_sequence(5, modifier_param),
        NamedKey::F6 => function_key_sequence(6, modifier_param),
        NamedKey::F7 => function_key_sequence(7, modifier_param),
        NamedKey::F8 => function_key_sequence(8, modifier_param),
        NamedKey::F9 => function_key_sequence(9, modifier_param),
        NamedKey::F10 => function_key_sequence(10, modifier_param),
        NamedKey::F11 => function_key_sequence(11, modifier_param),
        NamedKey::F12 => function_key_sequence(12, modifier_param),
        NamedKey::Enter => single(0x0d),
        NamedKey::Tab => {
            if modifiers.shift_key {
                let bytes: Vec<u8> = vec![0x1b, 0x5b, 0x5a];
                assert(bytes@ =~= csi() + seq![0x5au8]);
                Some(bytes)
            } else {
                single(0x09)
            }
        },
        NamedKey::Backspace => single(0x7f),
        NamedKey::Escape => single(0x1b),
    }
}

fn character_key_sequence(chars: &str, modifiers: ModifiersState) -> (bytes: Option<Vec<u8>>)
    ensures
        opt_bytes(bytes) == character_key_bytes(chars@, modifiers),
{
    if chars.unicode_len() != 1 {
        return None;
    }
    if modifiers.control_key {
        match control_code(chars.get_char(0)) {
            Some(code) => single(code),
            None => None,
        }
    } else if modifiers.alt_key {
        let mut bytes: Vec<u8> = vec![0x1b];
        bytes.extend_from_slice(chars.as_bytes());
        assert(bytes@ =~= seq![0x1bu8] + encode_utf8(chars@));
        Some(bytes)
    } else {
        None
    }
}

/// The bytes that a key sends to the program, if it sends any.
pub fn key_event_to_bytes(
    event: &KeyEvent,
    modifiers: ModifiersState,
    app_cursor_keys: bool,
) -> (bytes: Option<Vec<u8>>)
    ensures
        opt_bytes(bytes) == key_bytes(*event, modifiers, app_cursor_keys),
{
    if event.state != ElementState::Pressed {
        return None;
    }
    match &event.logical_key {
        Key::Named(key) => named_key_sequence(*key, modifiers, app_cursor_keys),
        Key::Character(chars) => character_key_sequence(chars.as_str(), modifiers),
        Key::Other => None,
    }
}

/// Pasted text between the marks of bracketed paste: `ESC [ 200 ~` and
/// `ESC [ 201 ~`.
pub open spec fn bracketed(text: Seq<u8>) -> Seq<u8> {
    seq![0x1bu8, 0x5b, 0x32, 0x30, 0x30, 0x7e] + text + seq![0x1bu8, 0x5b, 0x32, 0x30, 0x31, 0x7e]
}

pub fn wrap_bracketed_paste(text: &str) -> (bytes: Vec<u8>)
    ensures
        bytes@ == bracketed(encode_utf8(text@)),
{
    let mut out: Vec<u8> = vec![0x1b, 0x5b, 0x32, 0x30, 0x30, 0x7e];
    out.extend_from_slice(text.as_bytes());
    out.push(0x1b);
    out.push(0x5b);
    out.push(0x32);
    out.push(0x30);
    out.push(0x31);
    out.push(0x7e);
    assert(out@ =~= bracketed(encode_utf8(text@)));
    out
}

/// The button code of a mouse report with the modifiers added, at most 255.
pub open spec fn mouse_code(button_code: u8, modifiers: ModifiersState) -> int {
    min(
        button_code + (if modifiers.shift_key {
            4int
        } else {
            0
        }) + (if modifiers.alt_key {
            8int
        } else {
            0
        }) + (if modifiers.control_key {
            16int
        } else {
            0
        }),
        255,
    )
}

/// `ESC [ < code ; column ; row` and `M` for a press, `m` for a release.
pub open spec fn sgr_mouse(code: int, pressed: bool, col: int, row: int) -> Seq<u8> {
    csi() + seq![0x3cu8] + decimal(code as nat) + seq![0x3bu8] + decimal(col as nat) + seq![0x3bu8]
        + decimal(row as nat) + seq![
        if pressed {
            0x4du8
        } else {
            0x6du8
        },
    ]
}

/// `ESC [ M` and three bytes, each offset by 32; the code stops at 255 and the
/// coordinates at 223.
pub open spec fn legacy_mouse(code: int, col: int, row: int) -> Seq<u8> {
    csi() + seq![
        0x4du8,
        min(code + 32, 255) as u8,
        (min(col, 223) + 32) as u8,
        (min(row, 223) + 32) as u8,
    ]
}

fn code_with_modifiers(button_code: u8, modifiers: ModifiersState) -> (code: u8)
    ensures
        code == mouse_code(button_code, modifiers),
{
    let mut code: u8 = button_code;
    if modifiers.shift_key {
        code = code.saturating_add(4);
    }
    if modifiers.alt_key {
        code = code.saturating_add(8);
    }
    if modifiers.control_key {
        code = code.saturating_add(16);
    }
    code
}

pub fn encode_sgr_mouse(
    button_code: u8,
    pressed: bool,
    col_1_based: usize,
    row_1_based: usize,
    modifiers: ModifiersState,
) -> (bytes: Vec<u8>)
    ensures
        bytes@ == sgr_mouse(
            mouse_code(button_code, modifiers),
            pressed,
            col_1_based as int,
            row_1_based as int,
        ),
{
    let code: u8 = code_with_modifiers(button_code, modifiers);
    let mut bytes: Vec<u8> = vec![0x1b, 0x5b, 0x3c];
    push_decimal(&mut bytes, code as u64);
    bytes.push(0x3b);
    push_decimal(&mut bytes, col_1_based as u64);
    bytes.push(0x3b);
    push_decimal(&mut bytes, row_1_based as u64);
    bytes.push(
        if pressed {
            0x4d
        } else {
            0x6d
        },
    );
    assert(bytes@ =~= sgr_mouse(code as int, pressed, col_1_based as int, row_1_based as int));
    bytes
}

pub fn encode_legacy_mouse(
    button_code: u8,
    col_1_based: usize,
    row_1_based: usize,
    modifiers: ModifiersState,
) -> (bytes: Vec<u8>)
    ensures
        bytes@ == legacy_mouse(
            mouse_code(button_code, modifiers),
            col_1_based as int,
            row_1_based as int,
        ),
{
    let code: u8 = code_with_modifiers(button_code, modifiers);
    let x: u8 = (col_1_based.min(223) as u8).saturating_add(32);
    let y: u8 = (row_1_based.min(223) as u8).saturating_add(32);
    let bytes: Vec<u8> = vec![0x1b, 0x5b, 0x4d, code.saturating_add(32), x, y];
    assert(bytes@ =~= legacy_mouse(code as int, col_1_based as int, row_1_based as int));
    bytes
}

/// The code of a button in mouse reports; other buttons are not reported.
pub open spec fn button_code(button: MouseButton) -> Option<u8> {
    match button {
        MouseButton::Left => Some(0u8),
        MouseButton::Middle => Some(1u8),
        MouseButton::Right => Some(2u8),
        MouseButton::Other => None,
    }
}

pub fn mouse_button_code(button: MouseButton) -> (code: Option<u8>)
    ensures
        code == button_code(button),
{
    match button {
        MouseButton::Left => Some(0),
        MouseButton::Middle => Some(1),
        MouseButton::Right => Some(2),
        MouseButton::Other => None,
    }
}

/// Whether a text holds a control character.
pub open spec fn has_control(text: Seq<char>) -> bool {
    exists|i: int| 0 <= i < text.len() && is_control_code(#[trigger] text[i])
}

/// What typed text sends: itself, when a key goes down without super, control
/// and alt and the text is neither empty nor has control characters.
pub open spec fn typed_text_bytes(
    text: Option<Seq<char>>,
    state: ElementState,
    modifiers: ModifiersState,
) -> Option<Seq<u8>> {
    match text {
        Some(chars) => if state == ElementState::Pressed && !modifiers.super_key
            && !modifiers.control_key && !modifiers.alt_key && chars.len() > 0 && !has_control(
            chars,
        ) {
            Some(encode_utf8(chars))
        } else {
            None
        },
        None => None,
    }
}

fn text_has_control(text: &str) -> (found: bool)
    ensures
        found == has_control(text@),
{
    let len: usize = text.unicode_len();
    let mut i: usize = 0;
    while i < len
        invariant
            i <= len,
            len == text@.len(),
            forall|j: int| 0 <= j < i ==> !is_control_code(#[trigger] text@[j]),
        decreases len - i,
    {
        if text.get_char(i).is_control() {
            return true;
        }
        i = i + 1;
    }
    false
}

/// The bytes of typed text, for keys that send no sequence of their own.
pub fn keyboard_text_bytes(
    text: Option<&str>,
    state: ElementState,
    modifiers: ModifiersState,
) -> (bytes: Option<Vec<u8>>)
    ensures
        opt_bytes(bytes) == typed_text_bytes(
            match text {
                Some(chars) => Some(chars@),
                None => None,
            },
            state,
            modifiers,
        ),
{
    if state != ElementState::Pressed {
        return None;
    }
    if modifiers.super_key || modifiers.control_key || modifiers.alt_key {
        return None;
    }
    match text {
        Some(chars) => {
            if chars.is_empty() || text_has_control(chars) {
                return None;
            }
            Some(chars.as_bytes_vec())
        },
        None => None,
    }
}

} // verus!

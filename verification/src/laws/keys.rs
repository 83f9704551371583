//! What keys and typed text send to the program.

use vstd::prelude::*;
use vstd::utf8::encode_utf8;

use crate::decimal::decimal;
use crate::input::{
    arrow_key, character_key_bytes, control_byte, csi, edge_key, function_key, has_control,
    key_bytes, modified_key, modifier_number, named_key_bytes, numbered_key, typed_text_bytes,
    ElementState, Key, KeyEvent, ModifiersState, NamedKey,
};
use crate::laws::frames::{is_at, lemma_after_csi, only_moves, same_modes};
use crate::laws::moving::law_cursor_moves_by_count;
use crate::laws::stream::law_control_sequences_are_carried_out;
use crate::parser::{processed, TerminalModel};
use crate::screen::width::is_control_code;
use crate::vt::{at_rest, number_groups, private_mark, Item};

verus! {

/// Whether an event is a press of this key.
pub open spec fn presses(event: KeyEvent, key: NamedKey) -> bool {
    event.state == ElementState::Pressed && event.logical_key == Key::Named(key)
}

/// Whether neither shift nor alt nor control is held.
pub open spec fn is_unmodified(modifiers: ModifiersState) -> bool {
    !modifiers.shift_key && !modifiers.alt_key && !modifiers.control_key
}

/// The digit that tells the modifiers: one more than the sum of 1 for shift, 2 for alt
/// and 4 for control.
pub open spec fn modifier_digit(modifiers: ModifiersState) -> u8 {
    match (modifiers.control_key, modifiers.alt_key, modifiers.shift_key) {
        (false, false, false) => 0x31,
        (false, false, true) => 0x32,
        (false, true, false) => 0x33,
        (false, true, true) => 0x34,
        (true, false, false) => 0x35,
        (true, false, true) => 0x36,
        (true, true, false) => 0x37,
        (true, true, true) => 0x38,
    }
}

/// The letter of a direction: up, down, right and left.
pub open spec fn arrow_letter(key: NamedKey) -> Option<u8> {
    match key {
        NamedKey::ArrowUp => Some(0x41),
        NamedKey::ArrowDown => Some(0x42),
        NamedKey::ArrowRight => Some(0x43),
        NamedKey::ArrowLeft => Some(0x44),
        _ => None,
    }
}

/// The modifiers in decimal are a single digit.
proof fn lemma_modifier_digit(modifiers: ModifiersState)
    ensures
        decimal(modifier_number(modifiers) as nat) == seq![modifier_digit(modifiers)],
        modifier_number(modifiers) == 1 <==> is_unmodified(modifiers),
{
}

/// `ESC [ 1 ; digit letter`.
pub open spec fn letter_with_modifiers(modifiers: ModifiersState, letter: u8) -> Seq<u8> {
    seq![0x1bu8, 0x5b, 0x31, 0x3b, modifier_digit(modifiers), letter]
}

proof fn lemma_modified_key(modifiers: ModifiersState, letter: u8)
    ensures
        modified_key(modifier_number(modifiers), letter) == letter_with_modifiers(
            modifiers,
            letter,
        ),
{
    lemma_modifier_digit(modifiers);
    assert(modified_key(modifier_number(modifiers), letter) =~= letter_with_modifiers(
        modifiers,
        letter,
    ));
}

/// An arrow key sends the letter of its direction: behind `ESC [`, or behind `ESC O` if
/// the program asked for that, and with modifiers behind `ESC [ 1 ;` and their digit.
pub proof fn law_arrow_keys_send_their_direction(
    event: KeyEvent,
    key: NamedKey,
    modifiers: ModifiersState,
    app_cursor: bool,
)
    requires
        presses(event, key),
        arrow_letter(key) is Some,
    ensures
        ({
            let letter = arrow_letter(key)->0;
            let bytes = key_bytes(event, modifiers, app_cursor);
            &&& bytes is Some
            &&& bytes->0.last() == letter
            &&& is_unmodified(modifiers) && !app_cursor ==> bytes->0 == seq![0x1bu8, 0x5b, letter]
            &&& is_unmodified(modifiers) && app_cursor ==> bytes->0 == seq![0x1bu8, 0x4f, letter]
            &&& !is_unmodified(modifiers) ==> bytes->0 == letter_with_modifiers(modifiers, letter)
        }),
{
    let letter = arrow_letter(key)->0;
    lemma_modifier_digit(modifiers);
    lemma_modified_key(modifiers, letter);
    let bytes = arrow_key(letter, modifier_number(modifiers), app_cursor);
    assert(named_key_bytes(key, modifiers, app_cursor) == Some(bytes));
    if is_unmodified(modifiers) {
        if app_cursor {
            assert(bytes =~= seq![0x1bu8, 0x4f, letter]);
        } else {
            assert(bytes =~= seq![0x1bu8, 0x5b, letter]);
        }
    }
}

/// What an arrow key sends, read back by a terminal, moves the cursor by one cell in the
/// direction of the key, as far as there is one.
pub proof fn law_arrow_keys_can_be_read_back(
    event: KeyEvent,
    key: NamedKey,
    modifiers: ModifiersState,
    history: Seq<u8>,
    before: TerminalModel,
    after: TerminalModel,
)
    requires
        presses(event, key),
        arrow_letter(key) is Some,
        is_unmodified(modifiers),
        before.screen.wf(),
        at_rest(history),
        processed(history, key_bytes(event, modifiers, false)->0, before, after),
    ensures
        ({
            let row = before.screen.cursor().row as int;
            let col = before.screen.cursor().col as int;
            &&& only_moves(before.screen, after.screen) && same_modes(before, after)
            &&& key == NamedKey::ArrowUp && row > 0 ==> is_at(after.screen, row - 1, col)
            &&& key == NamedKey::ArrowDown && row + 1 < before.screen.rows ==> is_at(
                after.screen,
                row + 1,
                col,
            )
            &&& key == NamedKey::ArrowRight && col + 1 < before.screen.cols ==> is_at(
                after.screen,
                row,
                col + 1,
            )
            &&& key == NamedKey::ArrowLeft && col > 0 ==> is_at(after.screen, row, col - 1)
        }),
{
    let letter = arrow_letter(key)->0;
    let none = Seq::<u16>::empty();
    let marks = Seq::<u8>::empty();
    law_arrow_keys_send_their_direction(event, key, modifiers, false);
    let item = Item::Control { private: false, numbers: none, intermediates: marks, last: letter };
    assert(item.bytes() =~= seq![0x1bu8, 0x5b, letter]);
    law_control_sequences_are_carried_out(history, before, after, false, none, marks, letter);
    assert(private_mark(false) + marks =~= marks);
    lemma_after_csi(before, number_groups(none), marks, letter as char);
    law_cursor_moves_by_count(before, number_groups(none), marks, 1);
}

/// Home and End send H and F behind `ESC [`.
pub proof fn law_edge_keys(event: KeyEvent, modifiers: ModifiersState, app_cursor: bool)
    requires
        presses(event, NamedKey::Home) || presses(event, NamedKey::End),
    ensures
        ({
            let letter: u8 = if presses(event, NamedKey::Home) {
                0x48
            } else {
                0x46
            };
            key_bytes(event, modifiers, app_cursor) == Some(
                if is_unmodified(modifiers) {
                    seq![0x1bu8, 0x5b, letter]
                } else {
                    letter_with_modifiers(modifiers, letter)
                },
            )
        }),
{
    let letter: u8 = if presses(event, NamedKey::Home) {
        0x48
    } else {
        0x46
    };
    lemma_modifier_digit(modifiers);
    lemma_modified_key(modifiers, letter);
    let bytes = edge_key(letter, modifier_number(modifiers));
    if is_unmodified(modifiers) {
        assert(bytes =~= seq![0x1bu8, 0x5b, letter]);
    }
}

/// The number that an editing or function key is known by: the tens, if any, and the
/// ones.
pub open spec fn key_number(key: NamedKey) -> Option<Seq<u8>> {
    match key {
        NamedKey::Insert => Some(seq![0x32u8]),
        NamedKey::Delete => Some(seq![0x33u8]),
        NamedKey::PageUp => Some(seq![0x35u8]),
        NamedKey::PageDown => Some(seq![0x36u8]),
        NamedKey::F5 => Some(seq![0x31u8, 0x35]),
        NamedKey::F6 => Some(seq![0x31u8, 0x37]),
        NamedKey::F7 => Some(seq![0x31u8, 0x38]),
        NamedKey::F8 => Some(seq![0x31u8, 0x39]),
        NamedKey::F9 => Some(seq![0x32u8, 0x30]),
        NamedKey::F10 => Some(seq![0x32u8, 0x31]),
        NamedKey::F11 => Some(seq![0x32u8, 0x33]),
        NamedKey::F12 => Some(seq![0x32u8, 0x34]),
        _ => None,
    }
}

proof fn lemma_two_digits(code: nat)
    requires
        10 <= code < 100,
    ensures
        decimal(code) == seq![(0x30 + code / 10) as u8, (0x30 + code % 10) as u8],
{
    reveal_with_fuel(decimal, 2);
    assert(decimal(code) =~= seq![(0x30 + code / 10) as u8, (0x30 + code % 10) as u8]);
}

proof fn lemma_numbered_key(code: int, digits: Seq<u8>, modifiers: ModifiersState)
    requires
        0 <= code,
        decimal(code as nat) == digits,
    ensures
        numbered_key(code, modifier_number(modifiers)) == (if is_unmodified(modifiers) {
            seq![0x1bu8, 0x5b] + digits + seq![0x7eu8]
        } else {
            seq![0x1bu8, 0x5b] + digits + seq![0x3bu8, modifier_digit(modifiers), 0x7e]
        }),
{
    lemma_modifier_digit(modifiers);
    if is_unmodified(modifiers) {
        assert(numbered_key(code, modifier_number(modifiers)) =~= seq![0x1bu8, 0x5b] + digits
            + seq![0x7eu8]);
    } else {
        assert(numbered_key(code, modifier_number(modifiers)) =~= seq![0x1bu8, 0x5b] + digits
            + seq![0x3bu8, modifier_digit(modifiers), 0x7e]);
    }
}

/// The keys with numbers send `ESC [ number ~`, with the digit of the modifiers behind
/// the number if there are any.
pub proof fn law_numbered_keys(
    event: KeyEvent,
    key: NamedKey,
    modifiers: ModifiersState,
    app_cursor: bool,
)
    requires
        presses(event, key),
        key_number(key) is Some,
    ensures
        key_bytes(event, modifiers, app_cursor) == Some(
            if is_unmodified(modifiers) {
                seq![0x1bu8, 0x5b] + key_number(key)->0 + seq![0x7eu8]
            } else {
                seq![0x1bu8, 0x5b] + key_number(key)->0 + seq![
                    0x3bu8,
                    modifier_digit(modifiers),
                    0x7e,
                ]
            },
        ),
{
    let digits = key_number(key)->0;
    let code: int = match key {
        NamedKey::Insert => 2,
        NamedKey::Delete => 3,
        NamedKey::PageUp => 5,
        NamedKey::PageDown => 6,
        NamedKey::F5 => 15,
        NamedKey::F6 => 17,
        NamedKey::F7 => 18,
        NamedKey::F8 => 19,
        NamedKey::F9 => 20,
        NamedKey::F10 => 21,
        NamedKey::F11 => 23,
        _ => 24,
    };
    if code >= 10 {
        lemma_two_digits(code as nat);
    }
    assert(decimal(code as nat) =~= digits);
    lemma_numbered_key(code, digits, modifiers);
    assert(named_key_bytes(key, modifiers, app_cursor) == Some(
        numbered_key(code, modifier_number(modifiers)),
    ));
}

/// The letter of one of the first four function keys.
pub open spec fn function_letter(key: NamedKey) -> Option<u8> {
    match key {
        NamedKey::F1 => Some(0x50),
        NamedKey::F2 => Some(0x51),
        NamedKey::F3 => Some(0x52),
        NamedKey::F4 => Some(0x53),
        _ => None,
    }
}

/// The first four function keys send P, Q, R and S behind `ESC O`.
pub proof fn law_first_function_keys(
    event: KeyEvent,
    key: NamedKey,
    modifiers: ModifiersState,
    app_cursor: bool,
)
    requires
        presses(event, key),
        function_letter(key) is Some,
    ensures
        key_bytes(event, modifiers, app_cursor) == Some(
            if is_unmodified(modifiers) {
                seq![0x1bu8, 0x4f, function_letter(key)->0]
            } else {
                letter_with_modifiers(modifiers, function_letter(key)->0)
            },
        ),
{
    let letter = function_letter(key)->0;
    let number = letter - 0x4f;
    lemma_modifier_digit(modifiers);
    lemma_modified_key(modifiers, letter);
    let bytes = function_key(number, modifier_number(modifiers));
    assert(named_key_bytes(key, modifiers, app_cursor) == bytes);
    if is_unmodified(modifiers) {
        assert(bytes->0 =~= seq![0x1bu8, 0x4f, letter]);
    }
}

/// Enter sends a carriage return, Backspace a delete, Escape an escape, and Tab a tab, or
/// `ESC [ Z` with shift.
pub proof fn law_plain_keys(event: KeyEvent, modifiers: ModifiersState, app_cursor: bool)
    ensures
        presses(event, NamedKey::Enter) ==> key_bytes(event, modifiers, app_cursor) == Some(
            seq![0x0du8],
        ),
        presses(event, NamedKey::Backspace) ==> key_bytes(event, modifiers, app_cursor) == Some(
            seq![0x7fu8],
        ),
        presses(event, NamedKey::Escape) ==> key_bytes(event, modifiers, app_cursor) == Some(
            seq![0x1bu8],
        ),
        presses(event, NamedKey::Tab) && !modifiers.shift_key ==> key_bytes(
            event,
            modifiers,
            app_cursor,
        ) == Some(seq![0x09u8]),
        presses(event, NamedKey::Tab) && modifiers.shift_key ==> key_bytes(
            event,
            modifiers,
            app_cursor,
        ) == Some(seq![0x1bu8, 0x5b, 0x5a]),
{
    assert(csi() + seq![0x5au8] =~= seq![0x1bu8, 0x5b, 0x5a]);
}

/// Whether an event is a press of a key with these characters.
pub open spec fn presses_text(event: KeyEvent, chars: Seq<char>) -> bool {
    &&& event.state == ElementState::Pressed
    &&& event.logical_key matches Key::Character(text) && text@ == chars
}

/// With control, a letter sends its place in the alphabet in either case; the characters
/// from the opening bracket to the underscore send the codes that follow, and the space
/// and the at sign send zero. Other characters, and keys with several, send nothing.
pub proof fn law_control_keys(
    event: KeyEvent,
    ch: char,
    modifiers: ModifiersState,
    app_cursor: bool,
)
    requires
        presses_text(event, seq![ch]),
        modifiers.control_key,
    ensures
        ({
            let bytes = key_bytes(event, modifiers, app_cursor);
            let c = ch as int;
            &&& 0x61 <= c <= 0x7a ==> bytes == Some(seq![(c - 0x61 + 1) as u8])
            &&& 0x41 <= c <= 0x5a ==> bytes == Some(seq![(c - 0x41 + 1) as u8])
            &&& 0x5b <= c <= 0x5f ==> bytes == Some(seq![(c - 0x5b + 27) as u8])
            &&& ch == ' ' || ch == '@' ==> bytes == Some(seq![0u8])
            &&& !(0x40 <= c <= 0x5f || 0x61 <= c <= 0x7a || c == 0x20) ==> bytes is None
        }),
{
    assert(control_byte(ch) is Some ==> character_key_bytes(seq![ch], modifiers) == Some(
        seq![control_byte(ch)->0],
    ));
}

/// With alt and without control, a character is sent behind an escape.
pub proof fn law_alt_keys(
    event: KeyEvent,
    ch: char,
    modifiers: ModifiersState,
    app_cursor: bool,
)
    requires
        presses_text(event, seq![ch]),
        !modifiers.control_key,
    ensures
        modifiers.alt_key ==> key_bytes(event, modifiers, app_cursor) == Some(
            seq![0x1bu8] + encode_utf8(seq![ch]),
        ),
        !modifiers.alt_key ==> key_bytes(event, modifiers, app_cursor) is None,
{
}

/// A key with several characters, with none, or with no meaning sends no sequence.
pub proof fn law_other_keys_send_nothing(
    event: KeyEvent,
    chars: Seq<char>,
    modifiers: ModifiersState,
    app_cursor: bool,
)
    requires
        (presses_text(event, chars) && chars.len() != 1) || event.logical_key == Key::Other
            || event.state == ElementState::Released,
    ensures
        key_bytes(event, modifiers, app_cursor) is None,
{
}

/// Typed text is sent as it is if a key went down, super, control and alt are not held,
/// and it is not empty and has no control character; otherwise nothing is sent.
pub proof fn law_typed_text_is_sent(
    text: Option<Seq<char>>,
    state: ElementState,
    modifiers: ModifiersState,
)
    ensures
        ({
            let sent = typed_text_bytes(text, state, modifiers);
            let held = modifiers.super_key || modifiers.control_key || modifiers.alt_key;
            let clean = text is Some && text->0.len() > 0 && forall|i: int|
                0 <= i < text->0.len() ==> !((#[trigger] text->0[i]) as u32 <= 0x1f || 0x7f
                    <= text->0[i] as u32 <= 0x9f);
            &&& state == ElementState::Pressed && !held && clean ==> sent == Some(
                encode_utf8(text->0),
            )
            &&& !(state == ElementState::Pressed && !held && clean) ==> sent is None
        }),
{
    if text is Some && has_control(text->0) {
        let chars = text->0;
        let i = choose|i: int|
            0 <= i < chars.len() && is_control_code(#[trigger] chars[i]);
        assert(chars[i] as u32 <= 0x1f || 0x7f <= chars[i] as u32 <= 0x9f);
    }
}

} // verus!

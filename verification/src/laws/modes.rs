//! Modes, colours, keys and pasting.

use vstd::prelude::*;

use crate::input::{
    bracketed, character_key_bytes, control_byte, key_bytes, modifier_number, typed_text_bytes,
    ElementState, KeyEvent, ModifiersState,
};
use crate::parser::{
    is_cursor_control, is_edit_control, is_erase_control, is_scroll_control, is_style_control,
    modes_escaped, modes_in_mode, rendition, renditions, TerminalModel, TerminalModes,
};
use crate::screen::cell::{AttrState, Rgb};
use crate::screen::palette::{cube_level, palette_color};
use crate::session::{
    joined, shortcut_of, stepped_font_size, FontSizeAction, MAX_FONT_SIZE, MIN_FONT_SIZE,
};
use crate::vt::DispatchModel;

verus! {

/// Switching a mode off has the same outcome whether or not it was switched on
/// before, and switching it twice the same way is the same as once.
pub proof fn law_modes_can_be_switched_off(
    modes: TerminalModes,
    private: bool,
    mode: u16,
    enabled: bool,
)
    ensures
        modes_in_mode(modes_in_mode(modes, private, mode, true), private, mode, false)
            == modes_in_mode(modes, private, mode, false),
        modes_in_mode(modes_in_mode(modes, private, mode, enabled), private, mode, enabled)
            == modes_in_mode(modes, private, mode, enabled),
{
}

/// No mode is switched by a sequence that is not private.
pub proof fn law_only_private_modes_count(modes: TerminalModes, mode: u16, enabled: bool)
    ensures
        modes_in_mode(modes, false, mode, enabled) == modes,
{
}

/// A full reset switches every mode off.
pub proof fn law_full_reset_switches_modes_off(modes: TerminalModes)
    ensures
        modes_escaped(modes, 0x63) == TerminalModes::off(),
{
}

/// The rendition code zero, or a rendition sequence without codes, takes back
/// all attributes.
pub proof fn law_rendition_zero_is_plain(attrs: AttrState)
    ensures
        renditions(attrs, seq![0u16]) == AttrState::plain(),
{
    let codes = seq![0u16];
    assert(codes.skip(1) =~= Seq::<u16>::empty());
    assert(renditions(rendition(attrs, 0), Seq::<u16>::empty()) == rendition(attrs, 0));
}

/// Each of the four styles can be switched off without touching the rest.
pub proof fn law_styles_can_be_switched_off(attrs: AttrState)
    ensures
        rendition(rendition(attrs, 1), 22) == (AttrState { bold: false, ..attrs }),
        rendition(rendition(attrs, 3), 23) == (AttrState { italic: false, ..attrs }),
        rendition(rendition(attrs, 4), 24) == (AttrState { underline: false, ..attrs }),
        rendition(rendition(attrs, 7), 27) == (AttrState { inverse: false, ..attrs }),
{
}

/// The colour cube of the palette: six steps of red, green and blue.
pub proof fn law_palette_cube(red: int, green: int, blue: int)
    requires
        0 <= red < 6,
        0 <= green < 6,
        0 <= blue < 6,
    ensures
        palette_color((16 + 36 * red + 6 * green + blue) as u16) == (Rgb {
            r: cube_level(red),
            g: cube_level(green),
            b: cube_level(blue),
        }),
{
    let c = 36 * red + 6 * green + blue;
    assert(c / 36 == red);
    assert(c / 6 == 6 * red + green);
    assert(c / 6 % 6 == green);
    assert(c % 6 == blue);
}

/// The gray ramp of the palette: 24 steps of ten, from 8 to 238.
pub proof fn law_palette_grays(step: int)
    requires
        0 <= step < 24,
    ensures
        ({
            let color = palette_color((232 + step) as u16);
            color.r == 8 + 10 * step && color.g == color.r && color.b == color.r
        }),
{
}

/// A control code is below the printable characters, and a letter gives the same
/// one in either case.
pub proof fn law_control_codes(ch: char, letter: int)
    requires
        0 <= letter < 26,
    ensures
        control_byte(ch) is Some ==> control_byte(ch)->0 < 0x20,
        control_byte((0x61 + letter) as char) == Some((letter + 1) as u8),
        control_byte((0x41 + letter) as char) == Some((letter + 1) as u8),
{
}

/// Pasted text stands between the two marks, byte for byte.
pub proof fn law_bracketed_paste_keeps_text(text: Seq<u8>)
    ensures
        bracketed(text).len() == text.len() + 12,
        bracketed(text).subrange(6, 6 + text.len() as int) == text,
        bracketed(text).take(6) == seq![0x1bu8, 0x5b, 0x32, 0x30, 0x30, 0x7e],
        bracketed(text).skip(6 + text.len() as int) == seq![0x1bu8, 0x5b, 0x32, 0x30, 0x31, 0x7e],
{
    assert(bracketed(text).subrange(6, 6 + text.len() as int) =~= text);
    assert(bracketed(text).take(6) =~= seq![0x1bu8, 0x5b, 0x32, 0x30, 0x30, 0x7e]);
    assert(bracketed(text).skip(6 + text.len() as int) =~= seq![
        0x1bu8,
        0x5b,
        0x32,
        0x30,
        0x31,
        0x7e,
    ]);
}

/// A key that is let go sends nothing and is no shortcut.
pub proof fn law_released_keys_do_nothing(
    event: KeyEvent,
    modifiers: ModifiersState,
    text: Option<Seq<char>>,
    app_cursor: bool,
    selected: bool,
)
    requires
        event.state == ElementState::Released,
    ensures
        key_bytes(event, modifiers, app_cursor) is None,
        typed_text_bytes(text, event.state, modifiers) is None,
        shortcut_of(event, modifiers, selected) is None,
{
}

/// A plain character key is left to the text it types: it sends no sequence of
/// its own.
pub proof fn law_plain_characters_are_text(chars: Seq<char>, modifiers: ModifiersState)
    requires
        !modifiers.control_key,
        !modifiers.alt_key,
    ensures
        character_key_bytes(chars, modifiers) is None,
{
}

/// The font size stays within its limits, and a step up undoes a step down
/// except at the lower limit.
pub proof fn law_font_size_has_limits(size: int)
    requires
        MIN_FONT_SIZE <= size <= MAX_FONT_SIZE,
    ensures
        MIN_FONT_SIZE <= stepped_font_size(size, FontSizeAction::Increase) <= MAX_FONT_SIZE,
        MIN_FONT_SIZE <= stepped_font_size(size, FontSizeAction::Decrease) <= MAX_FONT_SIZE,
        size > MIN_FONT_SIZE ==> stepped_font_size(
            stepped_font_size(size, FontSizeAction::Decrease),
            FontSizeAction::Increase,
        ) == size,
{
}

/// It does not matter how output is cut into chunks: the bytes of all chunks in
/// a row are the bytes of the first ones and then of the rest.
pub proof fn law_chunks_join(first: Seq<Seq<u8>>, second: Seq<Seq<u8>>)
    ensures
        joined(first + second) == joined(first) + joined(second),
    decreases second.len(),
{
    if second.len() == 0 {
        assert(first + second =~= first);
        assert(joined(first) + joined(second) =~= joined(first));
    } else {
        law_chunks_join(first, second.drop_last());
        assert((first + second).drop_last() =~= first + second.drop_last());
        assert(joined(first + second) =~= joined(first) + joined(second));
    }
}

/// A single chunk is taken as it is, and no chunks are no bytes.
pub proof fn law_single_chunk(chunk: Seq<u8>)
    ensures
        joined(seq![chunk]) == chunk,
        joined(Seq::empty()).len() == 0,
{
    assert(seq![chunk].drop_last() =~= Seq::<Seq<u8>>::empty());
    reveal_with_fuel(joined, 2);
    assert(joined(seq![chunk]) =~= chunk);
}

/// The number behind a key sequence tells which of shift, alt and control were
/// held.
pub proof fn law_modifiers_can_be_told_apart(a: ModifiersState, b: ModifiersState)
    requires
        modifier_number(a) == modifier_number(b),
    ensures
        a.shift_key == b.shift_key,
        a.alt_key == b.alt_key,
        a.control_key == b.control_key,
        1 <= modifier_number(a) <= 8,
{
}

/// The private modes that have a meaning.
pub open spec fn is_known_mode(mode: u16) -> bool {
    mode == 1 || mode == 25 || mode == 1000 || mode == 1002 || mode == 1003 || mode == 1006 || mode
        == 1049 || mode == 2004
}

/// The final characters of control sequences that have a meaning.
pub open spec fn is_known_control(action: char) -> bool {
    ||| is_cursor_control(action)
    ||| is_erase_control(action)
    ||| is_edit_control(action)
    ||| is_scroll_control(action)
    ||| is_style_control(action)
    ||| action == 'n' || action == 'c' || action == 'h' || action == 'l'
}

/// The final bytes of escape sequences that have a meaning.
pub open spec fn is_known_escape(byte: u8) -> bool {
    byte == 0x37 || byte == 0x38 || byte == 0x44 || byte == 0x45 || byte == 0x4d || byte == 0x63
}

/// The control characters that have a meaning.
pub open spec fn is_known_control_code(byte: u8) -> bool {
    0x08 <= byte <= 0x0d
}

/// What is not known is ignored: it changes nothing and answers nothing.
pub proof fn law_unknown_output_is_ignored(
    terminal: TerminalModel,
    dispatch: DispatchModel,
    mode: u16,
    enabled: bool,
)
    requires
        match dispatch {
            DispatchModel::Print(_) => false,
            DispatchModel::Execute(byte) => !is_known_control_code(byte),
            DispatchModel::Csi(_, _, action) => !is_known_control(action),
            DispatchModel::Esc(byte) => !is_known_escape(byte),
        },
        !is_known_mode(mode),
    ensures
        terminal.dispatched(dispatch) == terminal,
        terminal.mode_set(true, mode, enabled) == terminal,
{
    reveal(TerminalModel::dispatched);
}

} // verus!

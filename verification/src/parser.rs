//! The interpretation of terminal output: what each dispatch does to the screen
//! and the modes, and what is answered.

use vstd::prelude::*;

use crate::decimal::{decimal, push_decimal};
use crate::screen::cell::{default_bg, default_fg, AttrState, CursorShape, Rgb};
use crate::screen::model::{max, min, minus, ScreenModel};
use crate::screen::palette::{ansi_256_to_rgb, basic_ansi_to_rgb, basic_color, palette_color};
use crate::screen::terminal_screen::Screen;
use crate::screen::width::{columns, unicode_char_width};
use crate::vt::{
    advance, at_rest, bytes_read, consists_of, dispatch_models, follows_items, has_read,
    is_plain_byte, is_plain_text, is_text_byte, items_dispatches, lemma_items_end,
    lemma_items_start, lemma_items_step, nested, new_parser, plain_dispatch, stream_dispatches,
    Dispatch, DispatchModel, Item,
};

verus! {

/// Which mouse events a program wants reported.
#[derive(Clone, Copy, Debug, PartialEq, Eq, Structural)]
pub enum MouseTracking {
    Off,
    Click,
    Drag,
    Motion,
}

/// The modes that decide how input is sent to the program.
#[derive(Clone, Copy, Debug, PartialEq, Eq, Structural)]
pub struct TerminalModes {
    pub bracketed_paste: bool,
    pub app_cursor_keys: bool,
    pub mouse_tracking: MouseTracking,
    pub sgr_mouse: bool,
}

impl TerminalModes {
    /// Every mode off.
    pub open spec fn off() -> TerminalModes {
        TerminalModes {
            bracketed_paste: false,
            app_cursor_keys: false,
            mouse_tracking: MouseTracking::Off,
            sgr_mouse: false,
        }
    }
}

impl Default for TerminalModes {
    fn default() -> (modes: Self)
        ensures
            modes == TerminalModes::off(),
    {
        TerminalModes {
            bracketed_paste: false,
            app_cursor_keys: false,
            mouse_tracking: MouseTracking::Off,
            sgr_mouse: false,
        }
    }
}

/// The first number of each parameter; no parameters count as a single zero.
pub open spec fn values_of(groups: Seq<Seq<u16>>) -> Seq<u16> {
    if groups.len() == 0 {
        seq![0u16]
    } else {
        groups.map_values(
            |group: Seq<u16>|
                if group.len() == 0 {
                    0u16
                } else {
                    group[0]
                },
        )
    }
}

/// The first number of the first parameter, at least one, and one if it is not
/// there.
pub open spec fn count_of(groups: Seq<Seq<u16>>) -> int {
    if groups.len() == 0 || groups[0].len() == 0 {
        1
    } else {
        max(groups[0][0] as int, 1)
    }
}

/// The number at a place of a parameter list, or a default.
pub open spec fn value_or(values: Seq<u16>, i: int, default: u16) -> u16 {
    if i < values.len() {
        values[i]
    } else {
        default
    }
}

/// A colour channel given by a parameter.
pub open spec fn channel(value: u16) -> u8 {
    min(value as int, 255) as u8
}

/// The attributes with another foreground or background.
pub open spec fn colored(attrs: AttrState, foreground: bool, color: Rgb) -> AttrState {
    if foreground {
        AttrState { fg: color, ..attrs }
    } else {
        AttrState { bg: color, ..attrs }
    }
}

/// The attributes after one rendition code that stands by itself.
pub open spec fn rendition(attrs: AttrState, code: u16) -> AttrState {
    if code == 0 {
        AttrState::plain()
    } else if code == 1 {
        AttrState { bold: true, ..attrs }
    } else if code == 3 {
        AttrState { italic: true, ..attrs }
    } else if code == 4 {
        AttrState { underline: true, ..attrs }
    } else if code == 7 {
        AttrState { inverse: true, ..attrs }
    } else if code == 22 {
        AttrState { bold: false, ..attrs }
    } else if code == 23 {
        AttrState { italic: false, ..attrs }
    } else if code == 24 {
        AttrState { underline: false, ..attrs }
    } else if code == 27 {
        AttrState { inverse: false, ..attrs }
    } else if 30 <= code <= 37 {
        colored(attrs, true, basic_color((code - 30) as u16, false))
    } else if code == 39 {
        colored(attrs, true, default_fg())
    } else if 40 <= code <= 47 {
        colored(attrs, false, basic_color((code - 40) as u16, false))
    } else if code == 49 {
        colored(attrs, false, default_bg())
    } else if 90 <= code <= 97 {
        colored(attrs, true, basic_color((code - 90) as u16, true))
    } else if 100 <= code <= 107 {
        colored(attrs, false, basic_color((code - 100) as u16, true))
    } else {
        attrs
    }
}

/// The attributes after a list of rendition codes. The codes 38 and 48 take the
/// numbers behind them: 2 and three channels, or 5 and a palette index; a list
/// that ends before that leaves them without effect.
pub open spec fn renditions(attrs: AttrState, codes: Seq<u16>) -> AttrState
    decreases codes.len(),
{
    if codes.len() == 0 {
        attrs
    } else if codes[0] == 38 || codes[0] == 48 {
        if codes.len() > 4 && codes[1] == 2 {
            let color = Rgb { r: channel(codes[2]), g: channel(codes[3]), b: channel(codes[4]) };
            renditions(colored(attrs, codes[0] == 38, color), codes.skip(5))
        } else if codes.len() > 2 && codes[1] == 5 {
            renditions(
                colored(attrs, codes[0] == 38, palette_color(codes[2])),
                codes.skip(3),
            )
        } else {
            renditions(attrs, codes.skip(1))
        }
    } else {
        renditions(rendition(attrs, codes[0]), codes.skip(1))
    }
}

/// The shape that a cursor style number selects.
pub open spec fn shape_of(style: u16) -> CursorShape {
    if style == 3 || style == 4 {
        CursorShape::Underline
    } else if style == 5 || style == 6 {
        CursorShape::Beam
    } else {
        CursorShape::Block
    }
}

/// The answer that all is well: `ESC [ 0 n`.
pub open spec fn status_reply() -> Seq<u8> {
    seq![0x1bu8, 0x5b, 0x30, 0x6e]
}

/// The answer that names the kind of terminal: `ESC [ ? 1 ; 2 c`.
pub open spec fn identity_reply() -> Seq<u8> {
    seq![0x1bu8, 0x5b, 0x3f, 0x31, 0x3b, 0x32, 0x63]
}

/// The answer that gives the cursor position, counted from one:
/// `ESC [ row ; column R`.
pub open spec fn position_reply(row: int, col: int) -> Seq<u8> {
    seq![0x1bu8, 0x5b] + decimal((row + 1) as nat) + seq![0x3bu8] + decimal((col + 1) as nat)
        + seq![0x52u8]
}

/// The screen after a mode was switched: private mode 25 shows or hides the
/// cursor, 1049 shows the alternate or the primary page.
pub open spec fn screen_in_mode(
    screen: ScreenModel,
    private: bool,
    mode: u16,
    enabled: bool,
) -> ScreenModel {
    if private && mode == 25 {
        screen.with_cursor_visible(enabled)
    } else if private && mode == 1049 {
        screen.switched(enabled)
    } else {
        screen
    }
}

/// The modes after one of them was switched.
pub open spec fn modes_in_mode(
    modes: TerminalModes,
    private: bool,
    mode: u16,
    enabled: bool,
) -> TerminalModes {
    let tracking = |on: MouseTracking|
        TerminalModes {
            mouse_tracking: if enabled {
                on
            } else {
                MouseTracking::Off
            },
            ..modes
        };
    if !private {
        modes
    } else if mode == 1 {
        TerminalModes { app_cursor_keys: enabled, ..modes }
    } else if mode == 1000 {
        tracking(MouseTracking::Click)
    } else if mode == 1002 {
        tracking(MouseTracking::Drag)
    } else if mode == 1003 {
        tracking(MouseTracking::Motion)
    } else if mode == 1006 {
        TerminalModes { sgr_mouse: enabled, ..modes }
    } else if mode == 2004 {
        TerminalModes { bracketed_paste: enabled, ..modes }
    } else {
        modes
    }
}

/// The screen after a control character was carried out.
pub open spec fn screen_executed(screen: ScreenModel, byte: u8) -> ScreenModel {
    let cursor = screen.cursor();
    if byte == 0x0a || byte == 0x0b || byte == 0x0c {
        screen.line_fed()
    } else if byte == 0x0d {
        screen.moved_to(cursor.row as int, 0)
    } else if byte == 0x08 {
        screen.moved_to(cursor.row as int, minus(cursor.col as int, 1))
    } else if byte == 0x09 {
        screen.tabbed()
    } else {
        screen
    }
}

/// The final characters of the sequences that move the cursor.
pub open spec fn is_cursor_control(action: char) -> bool {
    action == 'A' || action == 'B' || action == 'C' || action == 'D' || action == 'E' || action
        == 'F' || action == 'G' || action == 'H' || action == 'f' || action == 'd'
}

/// Where a sequence moves the cursor: up, down, forward and back; down and up
/// to the start of a row; to a column, to a place, to a row.
pub open spec fn cursor_target(
    screen: ScreenModel,
    groups: Seq<Seq<u16>>,
    action: char,
) -> (int, int) {
    let values = values_of(groups);
    let n = count_of(groups);
    let row = screen.cursor().row as int;
    let col = screen.cursor().col as int;
    let last_row = screen.rows - 1;
    let last_col = screen.cols - 1;
    if action == 'A' {
        (minus(row, n), col)
    } else if action == 'B' {
        (min(row + n, last_row), col)
    } else if action == 'C' {
        (row, min(col + n, last_col))
    } else if action == 'D' {
        (row, minus(col, n))
    } else if action == 'E' {
        (min(row + n, last_row), 0)
    } else if action == 'F' {
        (minus(row, n), 0)
    } else if action == 'G' {
        (row, min(n - 1, last_col))
    } else if action == 'd' {
        (min(n - 1, last_row), col)
    } else {
        (
            min(minus(value_or(values, 0, 1) as int, 1), last_row),
            min(minus(value_or(values, 1, 1) as int, 1), last_col),
        )
    }
}

/// The screen after a sequence that moves the cursor.
#[verifier::opaque]
pub open spec fn cursor_control(
    screen: ScreenModel,
    groups: Seq<Seq<u16>>,
    action: char,
) -> ScreenModel {
    let target = cursor_target(screen, groups, action);
    screen.moved_to(target.0, target.1)
}

/// The final characters of the sequences that erase.
pub open spec fn is_erase_control(action: char) -> bool {
    action == 'J' || action == 'K' || action == 'X'
}

/// The screen after a sequence that erases in the page, in the line, or a
/// number of characters.
#[verifier::opaque]
pub open spec fn erase_control(
    screen: ScreenModel,
    groups: Seq<Seq<u16>>,
    action: char,
) -> ScreenModel {
    let mode = value_or(values_of(groups), 0, 0) as int;
    if action == 'J' {
        screen.display_erased(mode)
    } else if action == 'K' {
        screen.line_erased(mode)
    } else {
        screen.chars_erased(count_of(groups))
    }
}

/// The final characters of the sequences that insert or delete.
pub open spec fn is_edit_control(action: char) -> bool {
    action == 'L' || action == 'M' || action == '@' || action == 'P'
}

/// The screen after a sequence that inserts or deletes lines or characters.
#[verifier::opaque]
pub open spec fn edit_control(
    screen: ScreenModel,
    groups: Seq<Seq<u16>>,
    action: char,
) -> ScreenModel {
    let n = count_of(groups);
    if action == 'L' {
        screen.lines_inserted(n)
    } else if action == 'M' {
        screen.lines_deleted(n)
    } else if action == '@' {
        screen.blanks_inserted(n)
    } else {
        screen.chars_deleted(n)
    }
}

/// The final characters of the sequences about scrolling.
pub open spec fn is_scroll_control(action: char) -> bool {
    action == 'S' || action == 'T' || action == 'r'
}

/// The screen after a sequence that scrolls up or down or sets the scroll
/// region. A region without a last row ends at the last row of the screen,
/// as far as sixteen bits can tell it.
#[verifier::opaque]
pub open spec fn scroll_control(
    screen: ScreenModel,
    groups: Seq<Seq<u16>>,
    action: char,
) -> ScreenModel {
    let values = values_of(groups);
    let n = count_of(groups);
    let top = screen.active().scroll_top as int;
    let bottom = screen.active().scroll_bottom as int;
    if action == 'S' {
        screen.scrolled_up(n, top, bottom)
    } else if action == 'T' {
        screen.scrolled_down(n, top, bottom)
    } else {
        let first = value_or(values, 0, 1);
        let last = value_or(values, 1, (screen.rows % 0x10000) as u16);
        if first == 0 && last == 0 {
            screen.with_full_scroll_region()
        } else {
            screen.with_scroll_region(first as int, last as int)
        }
    }
}

/// The final characters of the sequences about attributes and the cursor state.
pub open spec fn is_style_control(action: char) -> bool {
    action == 'm' || action == 'q' || action == 's' || action == 'u'
}

/// The screen after a sequence that sets the attributes or, with a space among
/// its intermediate bytes, the cursor shape, or that saves or restores the
/// cursor.
#[verifier::opaque]
pub open spec fn style_control(
    screen: ScreenModel,
    groups: Seq<Seq<u16>>,
    intermediates: Seq<u8>,
    action: char,
) -> ScreenModel {
    let values = values_of(groups);
    if action == 'm' {
        screen.with_attrs(renditions(screen.attrs(), values))
    } else if action == 'q' {
        if intermediates.contains(0x20u8) {
            screen.with_cursor_shape(shape_of(value_or(values, 0, 0)))
        } else {
            screen
        }
    } else if action == 's' {
        screen.with_saved_cursor()
    } else {
        screen.with_restored_cursor()
    }
}

/// The screen after a control sequence that acts on it alone; a sequence of
/// another kind changes nothing.
pub open spec fn screen_after(
    screen: ScreenModel,
    groups: Seq<Seq<u16>>,
    intermediates: Seq<u8>,
    action: char,
) -> ScreenModel {
    if is_cursor_control(action) {
        cursor_control(screen, groups, action)
    } else if is_erase_control(action) {
        erase_control(screen, groups, action)
    } else if is_edit_control(action) {
        edit_control(screen, groups, action)
    } else if is_scroll_control(action) {
        scroll_control(screen, groups, action)
    } else if is_style_control(action) {
        style_control(screen, groups, intermediates, action)
    } else {
        screen
    }
}

/// The screen after an escape sequence was carried out.
pub open spec fn screen_escaped(screen: ScreenModel, byte: u8) -> ScreenModel {
    if byte == 0x37 {
        screen.with_saved_cursor()
    } else if byte == 0x38 {
        screen.with_restored_cursor()
    } else if byte == 0x44 {
        screen.line_fed()
    } else if byte == 0x45 {
        screen.line_fed().moved_to(screen.line_fed().cursor().row as int, 0)
    } else if byte == 0x4d {
        screen.reverse_indexed()
    } else if byte == 0x63 {
        screen.reset()
    } else {
        screen
    }
}

/// The modes after an escape sequence was carried out: a full reset switches
/// all of them off.
pub open spec fn modes_escaped(modes: TerminalModes, byte: u8) -> TerminalModes {
    if byte == 0x63 {
        TerminalModes::off()
    } else {
        modes
    }
}

/// What terminal output acts on: the screen, the modes, and the answers to the
/// program so far.
#[verifier::ext_equal]
pub struct TerminalModel {
    pub screen: ScreenModel,
    pub modes: TerminalModes,
    pub replies: Seq<Seq<u8>>,
}

/// The terminal that a screen, some modes and some answers make up.
pub open spec fn terminal_of(
    screen: ScreenModel,
    modes: TerminalModes,
    replies: Seq<Vec<u8>>,
) -> TerminalModel {
    TerminalModel { screen: screen, modes: modes, replies: nested(replies) }
}

/// The screen after one byte of plain text.
#[verifier::opaque]
pub open spec fn typed_byte(screen: ScreenModel, byte: u8) -> ScreenModel {
    if is_text_byte(byte) {
        screen.printed(byte as char, 1)
    } else {
        screen_executed(screen, byte)
    }
}

/// The screen after some plain text.
pub open spec fn typed(screen: ScreenModel, bytes: Seq<u8>) -> ScreenModel
    decreases bytes.len(),
{
    if bytes.len() == 0 {
        screen
    } else {
        typed_byte(typed(screen, bytes.drop_last()), bytes.last())
    }
}

impl TerminalModel {
    pub open spec fn with_screen(self, screen: ScreenModel) -> TerminalModel {
        TerminalModel { screen: screen, ..self }
    }

    pub open spec fn replied(self, reply: Seq<u8>) -> TerminalModel {
        TerminalModel { replies: self.replies.push(reply), ..self }
    }

    /// A mode switched on or off. Only private modes have an effect.
    pub open spec fn mode_set(self, private: bool, mode: u16, enabled: bool) -> TerminalModel {
        TerminalModel {
            screen: screen_in_mode(self.screen, private, mode, enabled),
            modes: modes_in_mode(self.modes, private, mode, enabled),
            ..self
        }
    }

    /// Several modes switched on or off, one after the other.
    pub open spec fn modes_set(self, private: bool, modes: Seq<u16>, enabled: bool) -> TerminalModel
        decreases modes.len(),
    {
        if modes.len() == 0 {
            self
        } else {
            self.modes_set(private, modes.drop_last(), enabled).mode_set(
                private,
                modes.last(),
                enabled,
            )
        }
    }

    /// A control sequence carried out. Sequences with a question mark among
    /// their intermediate bytes are private.
    pub open spec fn controlled(
        self,
        groups: Seq<Seq<u16>>,
        intermediates: Seq<u8>,
        action: char,
    ) -> TerminalModel {
        let private = intermediates.contains(0x3fu8);
        let values = values_of(groups);
        let query = value_or(values, 0, 0);
        let cursor = self.screen.cursor();
        if action == 'n' {
            if !private && query == 5 {
                self.replied(status_reply())
            } else if !private && query == 6 {
                self.replied(position_reply(cursor.row as int, cursor.col as int))
            } else {
                self
            }
        } else if action == 'c' {
            if private {
                self
            } else {
                self.replied(identity_reply())
            }
        } else if action == 'h' {
            self.modes_set(private, values, true)
        } else if action == 'l' {
            self.modes_set(private, values, false)
        } else {
            self.with_screen(screen_after(self.screen, groups, intermediates, action))
        }
    }

    /// An escape sequence carried out.
    pub open spec fn escaped(self, byte: u8) -> TerminalModel {
        TerminalModel {
            screen: screen_escaped(self.screen, byte),
            modes: modes_escaped(self.modes, byte),
            ..self
        }
    }

    /// One dispatch carried out.
    #[verifier::opaque]
    pub open spec fn dispatched(self, dispatch: DispatchModel) -> TerminalModel {
        match dispatch {
            DispatchModel::Print(ch) => self.with_screen(
                self.screen.printed(ch, columns(unicode_char_width(ch))),
            ),
            DispatchModel::Execute(byte) => self.with_screen(screen_executed(self.screen, byte)),
            DispatchModel::Csi(groups, intermediates, action) => self.controlled(
                groups,
                intermediates,
                action,
            ),
            DispatchModel::Esc(byte) => self.escaped(byte),
        }
    }

    /// Several dispatches carried out, one after the other.
    pub open spec fn all_dispatched(self, dispatches: Seq<DispatchModel>) -> TerminalModel
        decreases dispatches.len(),
    {
        if dispatches.len() == 0 {
            self
        } else {
            self.all_dispatched(dispatches.drop_last()).dispatched(dispatches.last())
        }
    }
}

/// The first number of each parameter, or a single zero.
pub fn param_values(groups: &Vec<Vec<u16>>) -> (values: Vec<u16>)
    ensures
        values@ == values_of(nested(groups@)),
        values@.len() >= 1,
{
    let mut values: Vec<u16> = Vec::new();
    if groups.len() == 0 {
        values.push(0);
        assert(values@ =~= values_of(nested(groups@)));
        return values;
    }
    let mut i: usize = 0;
    while i < groups.len()
        invariant
            i <= groups@.len(),
            groups@.len() > 0,
            values@ =~= values_of(nested(groups@)).take(i as int),
        decreases groups@.len() - i,
    {
        let group: &Vec<u16> = &groups[i];
        if group.len() == 0 {
            values.push(0);
        } else {
            values.push(group[0]);
        }
        i = i + 1;
    }
    assert(values@ =~= values_of(nested(groups@)));
    values
}

/// The first number of the first parameter, or a default.
pub fn first_param(groups: &Vec<Vec<u16>>, default: u16) -> (value: u16)
    ensures
        value == (if groups@.len() == 0 || groups@[0]@.len() == 0 {
            default
        } else {
            groups@[0]@[0]
        }),
{
    if groups.len() == 0 || groups[0].len() == 0 {
        default
    } else {
        groups[0][0]
    }
}

/// Whether a byte is among some others.
fn has_byte(bytes: &Vec<u8>, byte: u8) -> (found: bool)
    ensures
        found == bytes@.contains(byte),
{
    let mut i: usize = 0;
    while i < bytes.len()
        invariant
            i <= bytes@.len(),
            forall|j: int| 0 <= j < i ==> bytes@[j] != byte,
        decreases bytes@.len() - i,
    {
        if bytes[i] == byte {
            return true;
        }
        i = i + 1;
    }
    false
}

/// The number at a place of a parameter list, or a default.
fn value_at(values: &Vec<u16>, i: usize, default: u16) -> (value: u16)
    ensures
        value == value_or(values@, i as int, default),
{
    if i < values.len() {
        values[i]
    } else {
        default
    }
}

/// Switches a mode on or off.
pub fn set_mode(
    screen: &mut Screen,
    modes: &mut TerminalModes,
    private: bool,
    mode: u16,
    enabled: bool,
)
    requires
        old(screen).wf(),
    ensures
        final(screen).wf(),
        final(screen)@ == screen_in_mode(old(screen)@, private, mode, enabled),
        *final(modes) == modes_in_mode(*old(modes), private, mode, enabled),
{
    if !private {
        return;
    }
    match mode {
        1 => modes.app_cursor_keys = enabled,
        25 => screen.set_cursor_visible(enabled),
        1000 => modes.mouse_tracking = if enabled {
            MouseTracking::Click
        } else {
            MouseTracking::Off
        },
        1002 => modes.mouse_tracking = if enabled {
            MouseTracking::Drag
        } else {
            MouseTracking::Off
        },
        1003 => modes.mouse_tracking = if enabled {
            MouseTracking::Motion
        } else {
            MouseTracking::Off
        },
        1006 => modes.sgr_mouse = enabled,
        1049 => screen.set_alt_screen(enabled),
        2004 => modes.bracketed_paste = enabled,
        _ => {},
    }
}

/// Sets the foreground or the background.
fn set_color(screen: &mut Screen, foreground: bool, color: Rgb)
    requires
        old(screen).wf(),
    ensures
        final(screen).wf(),
        final(screen)@ == old(screen)@.with_attrs(
            colored(old(screen)@.attrs(), foreground, color),
        ),
{
    if foreground {
        screen.set_fg(color);
    } else {
        screen.set_bg(color);
    }
}

/// Applies one rendition code that stands by itself.
fn set_rendition(screen: &mut Screen, code: u16)
    requires
        old(screen).wf(),
    ensures
        final(screen).wf(),
        final(screen)@ == old(screen)@.with_attrs(rendition(old(screen)@.attrs(), code)),
{
    match code {
        0 => screen.reset_attrs(),
        1 => screen.attrs_mut().bold = true,
        3 => screen.attrs_mut().italic = true,
        4 => screen.attrs_mut().underline = true,
        7 => screen.attrs_mut().inverse = true,
        22 => screen.attrs_mut().bold = false,
        23 => screen.attrs_mut().italic = false,
        24 => screen.attrs_mut().underline = false,
        27 => screen.attrs_mut().inverse = false,
        30..=37 => screen.set_fg(basic_ansi_to_rgb(code - 30, false)),
        39 => screen.set_fg(default_fg()),
        40..=47 => screen.set_bg(basic_ansi_to_rgb(code - 40, false)),
        49 => screen.set_bg(default_bg()),
        90..=97 => screen.set_fg(basic_ansi_to_rgb(code - 90, true)),
        100..=107 => screen.set_bg(basic_ansi_to_rgb(code - 100, true)),
        _ => {
            assert(screen@ =~= screen@.with_attrs(screen@.attrs()));
        },
    }
}

/// Applies a list of rendition codes.
pub fn set_sgr(screen: &mut Screen, params: &Vec<u16>)
    requires
        old(screen).wf(),
    ensures
        final(screen).wf(),
        final(screen)@ == old(screen)@.with_attrs(renditions(old(screen)@.attrs(), params@)),
{
    let ghost before = screen@;
    let mut i: usize = 0;
    proof {
        assert(params@.skip(0) =~= params@);
        assert(before =~= before.with_attrs(before.attrs()));
    }
    while i < params.len()
        invariant
            screen.wf(),
            i <= params@.len(),
            before == old(screen)@,
            screen@ == before.with_attrs(screen@.attrs()),
            renditions(screen@.attrs(), params@.skip(i as int)) == renditions(
                before.attrs(),
                params@,
            ),
        decreases params@.len() - i,
    {
        let ghost rest = params@.skip(i as int);
        proof {
            assert(rest.skip(1) =~= params@.skip(i + 1));
        }
        let code: u16 = params[i];
        if code == 38 || code == 48 {
            let left: usize = params.len() - i;
            if left > 4 && params[i + 1] == 2 {
                let color = Rgb::new(
                    params[i + 2].min(255) as u8,
                    params[i + 3].min(255) as u8,
                    params[i + 4].min(255) as u8,
                );
                set_color(screen, code == 38, color);
                assert(rest.skip(5) =~= params@.skip(i + 5));
                i = i + 4;
            } else if left > 2 && params[i + 1] == 5 {
                let color = ansi_256_to_rgb(params[i + 2]);
                set_color(screen, code == 38, color);
                assert(rest.skip(3) =~= params@.skip(i + 3));
                i = i + 2;
            }
        } else {
            set_rendition(screen, code);
        }
        i = i + 1;
    }
}

/// Switches several modes on or off.
fn set_modes(
    screen: &mut Screen,
    modes: &mut TerminalModes,
    private: bool,
    numbers: &Vec<u16>,
    enabled: bool,
    Ghost(replies): Ghost<Seq<Seq<u8>>>,
)
    requires
        old(screen).wf(),
    ensures
        final(screen).wf(),
        (TerminalModel { screen: final(screen)@, modes: *final(modes), replies: replies })
            == (TerminalModel {
            screen: old(screen)@,
            modes: *old(modes),
            replies: replies,
        }).modes_set(private, numbers@, enabled),
{
    let ghost before = TerminalModel { screen: screen@, modes: *modes, replies: replies };
    let mut i: usize = 0;
    assert(numbers@.take(0) =~= Seq::<u16>::empty());
    while i < numbers.len()
        invariant
            screen.wf(),
            i <= numbers@.len(),
            (TerminalModel { screen: screen@, modes: *modes, replies: replies })
                == before.modes_set(private, numbers@.take(i as int), enabled),
        decreases numbers@.len() - i,
    {
        set_mode(screen, modes, private, numbers[i], enabled);
        i = i + 1;
        assert(numbers@.take(i as int).drop_last() =~= numbers@.take(i - 1));
    }
    assert(numbers@.take(i as int) =~= numbers@);
}

/// The answer that gives the cursor position.
fn position_report(row: usize, col: usize) -> (reply: Vec<u8>)
    requires
        row < usize::MAX,
        col < usize::MAX,
    ensures
        reply@ == position_reply(row as int, col as int),
{
    let mut reply: Vec<u8> = vec![0x1b, 0x5b];
    push_decimal(&mut reply, (row + 1) as u64);
    reply.push(0x3b);
    push_decimal(&mut reply, (col + 1) as u64);
    reply.push(0x52);
    assert(reply@ =~= position_reply(row as int, col as int));
    reply
}

/// Answers with the cursor position.
pub fn report_cursor_position(screen: &Screen, replies: &mut Vec<Vec<u8>>)
    requires
        screen.wf(),
    ensures
        nested(final(replies)@) == nested(old(replies)@).push(
            position_reply(screen@.cursor().row as int, screen@.cursor().col as int),
        ),
{
    let cursor = screen.cursor();
    replies.push(position_report(cursor.row, cursor.col));
    assert(nested(replies@) =~= nested(old(replies)@).push(
        position_reply(screen@.cursor().row as int, screen@.cursor().col as int),
    ));
}

/// Carries out a control character.
pub fn execute(screen: &mut Screen, byte: u8)
    requires
        old(screen).wf(),
    ensures
        final(screen).wf(),
        final(screen)@ == screen_executed(old(screen)@, byte),
{
    match byte {
        0x0a | 0x0b | 0x0c => screen.line_feed(),
        0x0d => screen.carriage_return(),
        0x08 => screen.backspace(),
        0x09 => screen.tab(),
        _ => {},
    }
}

/// Carries out a sequence that moves the cursor.
fn control_cursor(
    screen: &mut Screen,
    groups: &Vec<Vec<u16>>,
    values: &Vec<u16>,
    first: usize,
    action: char,
)
    requires
        old(screen).wf(),
        values@ == values_of(nested(groups@)),
        first == count_of(nested(groups@)),
        is_cursor_control(action),
    ensures
        final(screen).wf(),
        final(screen)@ == cursor_control(old(screen)@, nested(groups@), action),
{
    reveal(cursor_control);
    let ghost before = screen@;
    match action {
        'A' => screen.cursor_up(first),
        'B' => screen.cursor_down(first),
        'C' => screen.cursor_forward(first),
        'D' => screen.cursor_back(first),
        'E' => {
            screen.cursor_down(first);
            screen.carriage_return();
            assert(screen@ =~= cursor_control(before, nested(groups@), action));
        },
        'F' => {
            screen.cursor_up(first);
            screen.carriage_return();
            assert(screen@ =~= cursor_control(before, nested(groups@), action));
        },
        'G' => {
            let row: usize = screen.cursor().row;
            screen.set_cursor(row, first.saturating_sub(1));
        },
        'd' => {
            let col: usize = screen.cursor().col;
            screen.set_cursor(first.saturating_sub(1), col);
        },
        _ => {
            let row: usize = value_at(values, 0, 1).saturating_sub(1) as usize;
            let col: usize = value_at(values, 1, 1).saturating_sub(1) as usize;
            screen.set_cursor(row, col);
        },
    }
}

/// Carries out a sequence that erases.
fn control_erase(
    screen: &mut Screen,
    groups: &Vec<Vec<u16>>,
    values: &Vec<u16>,
    first: usize,
    action: char,
)
    requires
        old(screen).wf(),
        values@ == values_of(nested(groups@)),
        first == count_of(nested(groups@)),
        is_erase_control(action),
    ensures
        final(screen).wf(),
        final(screen)@ == erase_control(old(screen)@, nested(groups@), action),
{
    reveal(erase_control);
    match action {
        'J' => screen.erase_in_display(value_at(values, 0, 0) as usize),
        'K' => screen.erase_in_line(value_at(values, 0, 0) as usize),
        _ => screen.erase_chars(first),
    }
}

/// Carries out a sequence that inserts or deletes.
fn control_edit(screen: &mut Screen, groups: &Vec<Vec<u16>>, first: usize, action: char)
    requires
        old(screen).wf(),
        first == count_of(nested(groups@)),
        is_edit_control(action),
    ensures
        final(screen).wf(),
        final(screen)@ == edit_control(old(screen)@, nested(groups@), action),
{
    reveal(edit_control);
    match action {
        'L' => screen.insert_lines(first),
        'M' => screen.delete_lines(first),
        '@' => screen.insert_blank_chars(first),
        _ => screen.delete_chars(first),
    }
}

/// Carries out a sequence about scrolling.
fn control_scroll(
    screen: &mut Screen,
    groups: &Vec<Vec<u16>>,
    values: &Vec<u16>,
    first: usize,
    action: char,
)
    requires
        old(screen).wf(),
        values@ == values_of(nested(groups@)),
        first == count_of(nested(groups@)),
        is_scroll_control(action),
    ensures
        final(screen).wf(),
        final(screen)@ == scroll_control(old(screen)@, nested(groups@), action),
{
    reveal(scroll_control);
    match action {
        'S' => {
            let region: (usize, usize) = screen.scroll_region();
            screen.scroll_up(first, region.0, region.1);
        },
        'T' => {
            let region: (usize, usize) = screen.scroll_region();
            screen.scroll_down(first, region.0, region.1);
        },
        _ => {
            let all_rows: u16 = (screen.rows() % 0x10000) as u16;
            let top: usize = value_at(values, 0, 1) as usize;
            let bottom: usize = value_at(values, 1, all_rows) as usize;
            if top == 0 && bottom == 0 {
                screen.reset_scroll_region();
            } else {
                screen.set_scroll_region(top, bottom);
            }
        },
    }
}

/// Carries out a sequence about attributes and the cursor state.
fn control_style(
    screen: &mut Screen,
    groups: &Vec<Vec<u16>>,
    values: &Vec<u16>,
    intermediates: &Vec<u8>,
    action: char,
)
    requires
        old(screen).wf(),
        values@ == values_of(nested(groups@)),
        is_style_control(action),
    ensures
        final(screen).wf(),
        final(screen)@ == style_control(
            old(screen)@,
            nested(groups@),
            intermediates@,
            action,
        ),
{
    reveal(style_control);
    match action {
        'm' => set_sgr(screen, values),
        'q' => {
            if has_byte(intermediates, 0x20) {
                let shape = match value_at(values, 0, 0) {
                    3 | 4 => CursorShape::Underline,
                    5 | 6 => CursorShape::Beam,
                    _ => CursorShape::Block,
                };
                screen.set_cursor_shape(shape);
            }
        },
        's' => screen.save_cursor(),
        _ => screen.restore_cursor(),
    }
}

/// Carries out a control sequence that acts on the screen alone.
fn control_screen(
    screen: &mut Screen,
    groups: &Vec<Vec<u16>>,
    values: &Vec<u16>,
    intermediates: &Vec<u8>,
    action: char,
)
    requires
        old(screen).wf(),
        values@ == values_of(nested(groups@)),
    ensures
        final(screen).wf(),
        final(screen)@ == screen_after(old(screen)@, nested(groups@), intermediates@, action),
{
    let first: usize = first_param(groups, 1).max(1) as usize;
    assert(first == count_of(nested(groups@)));
    match action {
        'A' | 'B' | 'C' | 'D' | 'E' | 'F' | 'G' | 'H' | 'f' | 'd' => control_cursor(
            screen,
            groups,
            values,
            first,
            action,
        ),
        'J' | 'K' | 'X' => control_erase(screen, groups, values, first, action),
        'L' | 'M' | '@' | 'P' => control_edit(screen, groups, first, action),
        'S' | 'T' | 'r' => control_scroll(screen, groups, values, first, action),
        'm' | 'q' | 's' | 'u' => control_style(screen, groups, values, intermediates, action),
        _ => {},
    }
}

/// Carries out a control sequence.
pub fn csi_dispatch(
    screen: &mut Screen,
    modes: &mut TerminalModes,
    replies: &mut Vec<Vec<u8>>,
    groups: &Vec<Vec<u16>>,
    intermediates: &Vec<u8>,
    action: char,
)
    requires
        old(screen).wf(),
    ensures
        final(screen).wf(),
        terminal_of(final(screen)@, *final(modes), final(replies)@) == terminal_of(
            old(screen)@,
            *old(modes),
            old(replies)@,
        ).controlled(nested(groups@), intermediates@, action),
{
    let private: bool = has_byte(intermediates, 0x3f);
    let values: Vec<u16> = param_values(groups);
    let ghost before = terminal_of(screen@, *modes, replies@);
    match action {
        'n' => {
            if !private {
                match value_at(&values, 0, 0) {
                    5 => {
                        replies.push(vec![0x1b, 0x5b, 0x30, 0x6e]);
                        assert(nested(replies@) =~= before.replies.push(status_reply()));
                    },
                    6 => report_cursor_position(screen, replies),
                    _ => {},
                }
            }
        },
        'c' => {
            if !private {
                replies.push(vec![0x1b, 0x5b, 0x3f, 0x31, 0x3b, 0x32, 0x63]);
                assert(nested(replies@) =~= before.replies.push(identity_reply()));
            }
        },
        'h' => set_modes(screen, modes, private, &values, true, Ghost(nested(replies@))),
        'l' => set_modes(screen, modes, private, &values, false, Ghost(nested(replies@))),
        _ => control_screen(screen, groups, &values, intermediates, action),
    }
}

/// Carries out an escape sequence.
pub fn esc_dispatch(screen: &mut Screen, modes: &mut TerminalModes, byte: u8)
    requires
        old(screen).wf(),
    ensures
        final(screen).wf(),
        final(screen)@ == screen_escaped(old(screen)@, byte),
        *final(modes) == modes_escaped(*old(modes), byte),
{
    match byte {
        0x37 => screen.save_cursor(),
        0x38 => screen.restore_cursor(),
        0x44 => screen.line_feed(),
        0x45 => {
            screen.line_feed();
            screen.carriage_return();
        },
        0x4d => screen.reverse_index(),
        0x63 => {
            screen.reset();
            *modes = TerminalModes::default();
        },
        _ => {},
    }
}

/// Carries out one dispatch.
pub fn perform(
    screen: &mut Screen,
    modes: &mut TerminalModes,
    replies: &mut Vec<Vec<u8>>,
    dispatch: &Dispatch,
)
    requires
        old(screen).wf(),
    ensures
        final(screen).wf(),
        terminal_of(final(screen)@, *final(modes), final(replies)@) == terminal_of(
            old(screen)@,
            *old(modes),
            old(replies)@,
        ).dispatched(dispatch@),
        forall|byte: u8|
            is_plain_byte(byte) && dispatch@ == #[trigger] plain_dispatch(byte) ==> {
                &&& final(screen)@ == typed_byte(old(screen)@, byte)
                &&& *final(modes) == *old(modes)
                &&& final(replies)@ == old(replies)@
            },
{
    reveal(TerminalModel::dispatched);
    reveal(typed_byte);
    match dispatch {
        Dispatch::Print(ch) => screen.put_char(*ch),
        Dispatch::Execute(byte) => execute(screen, *byte),
        Dispatch::Csi(groups, intermediates, action) => csi_dispatch(
            screen,
            modes,
            replies,
            groups,
            intermediates,
            *action,
        ),
        Dispatch::Esc(byte) => esc_dispatch(screen, modes, *byte),
    }
}

/// Dispatches carried out in two turns are the same as all of them in one.
pub proof fn lemma_dispatched_in_turn(
    terminal: TerminalModel,
    first: Seq<DispatchModel>,
    second: Seq<DispatchModel>,
)
    ensures
        terminal.all_dispatched(first + second) == terminal.all_dispatched(first).all_dispatched(
            second,
        ),
    decreases second.len(),
{
    if second.len() == 0 {
        assert(first + second =~= first);
    } else {
        lemma_dispatched_in_turn(terminal, first, second.drop_last());
        assert((first + second).drop_last() =~= first + second.drop_last());
    }
}

/// What reading `bytes` after `history` makes of a terminal. It is fixed by the
/// dispatches of the state machine. Between sequences, plain text is typed, and
/// output that consists of items is carried out item by item; after both the
/// machine is between sequences again.
pub open spec fn processed(
    history: Seq<u8>,
    bytes: Seq<u8>,
    before: TerminalModel,
    after: TerminalModel,
) -> bool {
    &&& after == before.all_dispatched(stream_dispatches(history, bytes))
    &&& at_rest(history) && is_plain_text(bytes) ==> after == before.with_screen(
        typed(before.screen, bytes),
    ) && at_rest(history + bytes)
    &&& forall|items: Seq<Item>|
        at_rest(history) && #[trigger] consists_of(bytes, items) ==> after
            == before.all_dispatched(items_dispatches(items)) && at_rest(history + bytes)
}

/// Carries out some dispatches, one after the other.
fn perform_all(
    screen: &mut Screen,
    modes: &mut TerminalModes,
    replies: &mut Vec<Vec<u8>>,
    dispatches: &Vec<Dispatch>,
)
    requires
        old(screen).wf(),
    ensures
        final(screen).wf(),
        terminal_of(final(screen)@, *final(modes), final(replies)@) == terminal_of(
            old(screen)@,
            *old(modes),
            old(replies)@,
        ).all_dispatched(dispatch_models(dispatches@)),
        forall|byte: u8|
            is_plain_byte(byte) && dispatch_models(dispatches@) == seq![
                #[trigger] plain_dispatch(byte),
            ] ==> {
                &&& final(screen)@ == typed_byte(old(screen)@, byte)
                &&& *final(modes) == *old(modes)
                &&& final(replies)@ == old(replies)@
            },
{
    let ghost before = terminal_of(screen@, *modes, replies@);
    let ghost models = dispatch_models(dispatches@);
    let mut k: usize = 0;
    assert(models.take(0) =~= Seq::<DispatchModel>::empty());
    while k < dispatches.len()
        invariant
            screen.wf(),
            k <= dispatches@.len(),
            models == dispatch_models(dispatches@),
            before == terminal_of(old(screen)@, *old(modes), old(replies)@),
            terminal_of(screen@, *modes, replies@) == before.all_dispatched(
                models.take(k as int),
            ),
            k == 0 ==> screen@ == old(screen)@ && *modes == *old(modes) && replies@
                == old(replies)@,
            forall|byte: u8|
                k == 1 && is_plain_byte(byte) && dispatches@[0]@ == #[trigger] plain_dispatch(
                    byte,
                ) ==> {
                    &&& screen@ == typed_byte(old(screen)@, byte)
                    &&& *modes == *old(modes)
                    &&& replies@ == old(replies)@
                },
        decreases dispatches@.len() - k,
    {
        perform(screen, modes, replies, &dispatches[k]);
        k = k + 1;
        proof {
            assert(models.take(k as int).drop_last() =~= models.take(k - 1));
            assert(models.take(k as int).last() == dispatches@[k - 1]@);
        }
    }
    proof {
        assert(models.take(k as int) =~= models);
        assert forall|byte: u8|
            is_plain_byte(byte) && models == seq![#[trigger] plain_dispatch(byte)] implies {
            &&& screen@ == typed_byte(old(screen)@, byte)
            &&& *modes == *old(modes)
            &&& replies@ == old(replies)@
        } by {
            assert(models.len() == 1);
            assert(models[0] == dispatches@[0]@);
        }
    }
}

/// Reads terminal output and carries it out.
pub struct AnsiParser {
    parser: vte::Parser,
    modes: TerminalModes,
}

impl AnsiParser {
    /// The bytes read so far.
    pub closed spec fn read(&self) -> Seq<u8> {
        bytes_read(self.parser)
    }

    pub closed spec fn current_modes(&self) -> TerminalModes {
        self.modes
    }

    pub fn new() -> (parser: Self)
        ensures
            parser.read() == Seq::<u8>::empty(),
            at_rest(parser.read()),
            parser.current_modes() == TerminalModes::off(),
    {
        AnsiParser { parser: new_parser(), modes: TerminalModes::default() }
    }

    pub fn modes(&self) -> (modes: &TerminalModes)
        ensures
            *modes == self.current_modes(),
    {
        &self.modes
    }

    /// Reads more output and carries out what it asks for. The result is what
    /// has to be sent back to the program.
    pub fn process(&mut self, bytes: &[u8], screen: &mut Screen) -> (replies: Vec<Vec<u8>>)
        requires
            old(screen).wf(),
        ensures
            final(screen).wf(),
            final(self).read() == old(self).read() + bytes@,
            processed(
                old(self).read(),
                bytes@,
                terminal_of(old(screen)@, old(self).current_modes(), Seq::empty()),
                terminal_of(final(screen)@, final(self).current_modes(), replies@),
            ),
    {
        let mut replies: Vec<Vec<u8>> = Vec::new();
        let ghost before = terminal_of(screen@, self.modes, replies@);
        let ghost history = self.read();
        let ghost plain = at_rest(history) && is_plain_text(bytes@);
        let mut i: usize = 0;
        proof {
            assert(bytes@.take(0) =~= Seq::<u8>::empty());
            assert(history + bytes@.take(0) =~= history);
            lemma_items_start(history, bytes@);
        }
        while i < bytes.len()
            invariant
                screen.wf(),
                i <= bytes@.len(),
                history == old(self).read(),
                plain == (at_rest(history) && is_plain_text(bytes@)),
                self.read() == history + bytes@.take(i as int),
                terminal_of(screen@, self.modes, replies@) == before.all_dispatched(
                    stream_dispatches(history, bytes@.take(i as int)),
                ),
                before.replies.len() == 0,
                plain ==> {
                    &&& screen@ == typed(before.screen, bytes@.take(i as int))
                    &&& self.modes == before.modes
                    &&& replies@.len() == 0
                    &&& at_rest(self.read())
                },
                follows_items(history, bytes@, i as int),
            decreases bytes@.len() - i,
        {
            let byte: u8 = bytes[i];
            let ghost seen = stream_dispatches(history, bytes@.take(i as int));
            let ghost seen_bytes = self.read();
            let dispatches: Vec<Dispatch> = advance(&mut self.parser, byte);
            perform_all(screen, &mut self.modes, &mut replies, &dispatches);
            i = i + 1;
            proof {
                let part = bytes@.take(i as int);
                let models = dispatch_models(dispatches@);
                assert(part.drop_last() =~= bytes@.take(i - 1));
                assert(part.last() == byte);
                assert(seen_bytes.push(byte) =~= history + part);
                assert(stream_dispatches(history, part) == seen + models);
                lemma_dispatched_in_turn(before, seen, models);
                lemma_items_step(history, bytes@, i - 1, models);
                if plain {
                    let item = Item::Byte(byte);
                    assert(bytes@[i - 1] == byte);
                    assert(item.bytes().take(1) =~= seq![byte]);
                    assert(self.read() =~= seen_bytes + item.bytes().take(1));
                    assert(has_read(self.read(), seen_bytes, item.bytes(), 1));
                    assert(models == seq![plain_dispatch(byte)]);
                }
            }
        }
        proof {
            let after = terminal_of(screen@, self.modes, replies@);
            assert(bytes@.take(i as int) =~= bytes@);
            if plain {
                assert(after.replies =~= before.replies);
                assert(after == before.with_screen(typed(before.screen, bytes@)));
            }
            assert forall|items: Seq<Item>|
                at_rest(history) && #[trigger] consists_of(bytes@, items) implies after
                == before.all_dispatched(items_dispatches(items)) && at_rest(
                history + bytes@,
            ) by {
                lemma_items_end(history, bytes@, items);
            }
        }
        replies
    }
}

} // verus!

//! What a terminal window does with its events: keys, pointer, output of the
//! program and changes of size.

use vstd::prelude::*;
use vstd::string::StrSliceExecFns;
use vstd::utf8::encode_utf8;

use crate::input::{
    bracketed, button_code, encode_legacy_mouse, encode_sgr_mouse, key_bytes, key_event_to_bytes,
    keyboard_text_bytes, legacy_mouse, mouse_button_code, mouse_code, opt_bytes, sgr_mouse,
    typed_text_bytes, wrap_bracketed_paste, ElementState, Key, KeyEvent, ModifiersState,
    MouseButton,
};
use crate::parser::{processed, terminal_of, AnsiParser, MouseTracking, TerminalModes};
use crate::screen::model::{max, min, ScreenModel};
use crate::screen::terminal_screen::Screen;
use crate::selection::SelectionState;
use crate::vt::{at_rest, nested};

verus! {

/// How many lines that scrolled off are kept.
pub const SCROLLBACK_LINES: usize = 100_000;

/// The font size a window starts with.
pub const DEFAULT_FONT_SIZE: u32 = 20;

pub const MIN_FONT_SIZE: u32 = 8;

pub const MAX_FONT_SIZE: u32 = 64;

#[derive(Clone, Copy, Debug, PartialEq, Eq, Structural)]
pub enum FontSizeAction {
    Increase,
    Decrease,
}

/// What a text typed together with the super key does to the font size.
pub open spec fn font_size_action(
    chars: Seq<char>,
    state: ElementState,
    modifiers: ModifiersState,
) -> Option<FontSizeAction> {
    if state != ElementState::Pressed || !modifiers.super_key || chars.len() != 1 {
        None
    } else if chars[0] == '+' || chars[0] == '=' {
        Some(FontSizeAction::Increase)
    } else if chars[0] == '-' || chars[0] == '_' {
        Some(FontSizeAction::Decrease)
    } else {
        None
    }
}

/// What a key does to the font size.
pub open spec fn font_size_shortcut(
    event: KeyEvent,
    modifiers: ModifiersState,
) -> Option<FontSizeAction> {
    match event.logical_key {
        Key::Character(chars) => font_size_action(chars@, event.state, modifiers),
        _ => None,
    }
}

pub fn font_size_action_from_chars(
    chars: &str,
    state: ElementState,
    modifiers: ModifiersState,
) -> (action: Option<FontSizeAction>)
    ensures
        action == font_size_action(chars@, state, modifiers),
{
    if state != ElementState::Pressed || !modifiers.super_key {
        return None;
    }
    if chars.unicode_len() != 1 {
        return None;
    }
    match chars.get_char(0) {
        '+' | '=' => Some(FontSizeAction::Increase),
        '-' | '_' => Some(FontSizeAction::Decrease),
        _ => None,
    }
}

pub fn font_size_shortcut_action(event: &KeyEvent, modifiers: ModifiersState) -> (action: Option<
    FontSizeAction,
>)
    ensures
        action == font_size_shortcut(*event, modifiers),
{
    match &event.logical_key {
        Key::Character(chars) => font_size_action_from_chars(
            chars.as_str(),
            event.state,
            modifiers,
        ),
        _ => None,
    }
}

/// A font size one step larger or smaller, within the limits.
pub open spec fn stepped_font_size(size: int, action: FontSizeAction) -> int {
    let next = match action {
        FontSizeAction::Increase => size + 1,
        FontSizeAction::Decrease => size - 1,
    };
    max(min(next, MAX_FONT_SIZE as int), MIN_FONT_SIZE as int)
}

/// The font size after a shortcut, if that is another one.
pub fn next_font_size(size: u32, action: FontSizeAction) -> (next: Option<u32>)
    ensures
        next == (if stepped_font_size(size as int, action) == size {
            None
        } else {
            Some(stepped_font_size(size as int, action) as u32)
        }),
{
    let stepped: u32 = match action {
        FontSizeAction::Increase => size.saturating_add(1),
        FontSizeAction::Decrease => size.saturating_sub(1),
    };
    let next: u32 = stepped.min(MAX_FONT_SIZE).max(MIN_FONT_SIZE);
    if next == size {
        None
    } else {
        Some(next)
    }
}

/// What a key does together with the super key.
#[derive(Clone, Copy, Debug, PartialEq, Eq, Structural)]
pub enum Shortcut {
    /// Copy the selected text.
    Copy,
    /// Send control-C, as there is nothing to copy.
    Interrupt,
    Paste,
    ToggleProfiler,
    /// Run a command that prints without end.
    Stress,
}

/// The shortcut that a key stands for. The letters count in either case; two of
/// them need the shift key as well.
pub open spec fn shortcut_of(
    event: KeyEvent,
    modifiers: ModifiersState,
    selected: bool,
) -> Option<Shortcut> {
    if event.state != ElementState::Pressed || !modifiers.super_key {
        None
    } else {
        match event.logical_key {
            Key::Character(chars) => if chars@.len() != 1 {
                None
            } else if chars@[0] == 'c' || chars@[0] == 'C' {
                Some(
                    if selected {
                        Shortcut::Copy
                    } else {
                        Shortcut::Interrupt
                    },
                )
            } else if chars@[0] == 'v' || chars@[0] == 'V' {
                Some(Shortcut::Paste)
            } else if modifiers.shift_key && (chars@[0] == 'p' || chars@[0] == 'P') {
                Some(Shortcut::ToggleProfiler)
            } else if modifiers.shift_key && (chars@[0] == 's' || chars@[0] == 'S') {
                Some(Shortcut::Stress)
            } else {
                None
            },
            _ => None,
        }
    }
}

pub fn key_shortcut(event: &KeyEvent, modifiers: ModifiersState, selected: bool) -> (shortcut:
    Option<Shortcut>)
    ensures
        shortcut == shortcut_of(*event, modifiers, selected),
{
    if event.state != ElementState::Pressed || !modifiers.super_key {
        return None;
    }
    match &event.logical_key {
        Key::Character(chars) => {
            if chars.as_str().unicode_len() != 1 {
                return None;
            }
            match chars.as_str().get_char(0) {
                'c' | 'C' => {
                    if selected {
                        Some(Shortcut::Copy)
                    } else {
                        Some(Shortcut::Interrupt)
                    }
                },
                'v' | 'V' => Some(Shortcut::Paste),
                'p' | 'P' => {
                    if modifiers.shift_key {
                        Some(Shortcut::ToggleProfiler)
                    } else {
                        None
                    }
                },
                's' | 'S' => {
                    if modifiers.shift_key {
                        Some(Shortcut::Stress)
                    } else {
                        None
                    }
                },
                _ => None,
            }
        },
        _ => None,
    }
}

/// What has to be done about a key.
pub enum KeyAction {
    Ignore,
    ChangeFontSize(FontSizeAction),
    /// Put this text on the clipboard.
    Copy(String),
    /// Read the clipboard and send what it holds.
    Paste,
    /// Show or hide the profiler.
    ToggleProfiler,
    /// Send these bytes for a shortcut.
    Command(Vec<u8>),
    /// Send these bytes for a key or typed text.
    Send(Vec<u8>),
}

/// An action as a mathematical value.
pub enum KeyActionModel {
    Ignore,
    ChangeFontSize(FontSizeAction),
    Copy(Seq<char>),
    Paste,
    ToggleProfiler,
    Command(Seq<u8>),
    Send(Seq<u8>),
}

impl View for KeyAction {
    type V = KeyActionModel;

    open spec fn view(&self) -> KeyActionModel {
        match *self {
            KeyAction::Ignore => KeyActionModel::Ignore,
            KeyAction::ChangeFontSize(action) => KeyActionModel::ChangeFontSize(action),
            KeyAction::Copy(text) => KeyActionModel::Copy(text@),
            KeyAction::Paste => KeyActionModel::Paste,
            KeyAction::ToggleProfiler => KeyActionModel::ToggleProfiler,
            KeyAction::Command(bytes) => KeyActionModel::Command(bytes@),
            KeyAction::Send(bytes) => KeyActionModel::Send(bytes@),
        }
    }
}

/// What has to be done about a pointer event.
pub enum PointerAction {
    Nothing,
    Redraw,
    /// Send this report to the program.
    Report(Vec<u8>),
}

/// A pointer action as a mathematical value.
pub enum PointerActionModel {
    Nothing,
    Redraw,
    Report(Seq<u8>),
}

impl View for PointerAction {
    type V = PointerActionModel;

    open spec fn view(&self) -> PointerActionModel {
        match *self {
            PointerAction::Nothing => PointerActionModel::Nothing,
            PointerAction::Redraw => PointerActionModel::Redraw,
            PointerAction::Report(bytes) => PointerActionModel::Report(bytes@),
        }
    }
}

#[derive(Clone, Copy, Debug, PartialEq, Eq, Structural)]
pub enum WheelDirection {
    Up,
    Down,
    Still,
}

/// A mouse report for a cell given as column and row, counted from zero, in the
/// form that the program asked for.
pub open spec fn mouse_report_bytes(
    modes: TerminalModes,
    code: u8,
    pressed: bool,
    cell: (usize, usize),
    modifiers: ModifiersState,
) -> Seq<u8> {
    let col = min(cell.0 + 1, usize::MAX as int);
    let row = min(cell.1 + 1, usize::MAX as int);
    if modes.sgr_mouse {
        sgr_mouse(mouse_code(code, modifiers), pressed, col, row)
    } else {
        legacy_mouse(mouse_code(code, modifiers), col, row)
    }
}

pub fn mouse_report(
    modes: &TerminalModes,
    code: u8,
    pressed: bool,
    cell: (usize, usize),
    modifiers: ModifiersState,
) -> (bytes: Vec<u8>)
    ensures
        bytes@ == mouse_report_bytes(*modes, code, pressed, cell, modifiers),
{
    let col_1: usize = cell.0.saturating_add(1);
    let row_1: usize = cell.1.saturating_add(1);
    if modes.sgr_mouse {
        encode_sgr_mouse(code, pressed, col_1, row_1, modifiers)
    } else {
        encode_legacy_mouse(code, col_1, row_1, modifiers)
    }
}

/// Whether a program that tracks the mouse like this is told of a move.
pub open spec fn reports_motion(tracking: MouseTracking, held: Option<MouseButton>) -> bool {
    match tracking {
        MouseTracking::Off => false,
        MouseTracking::Click => false,
        MouseTracking::Drag => held is Some,
        MouseTracking::Motion => true,
    }
}

/// The code that a move is reported with.
pub open spec fn motion_code(held: Option<MouseButton>) -> u8 {
    match held {
        Some(button) => match button_code(button) {
            Some(code) => (code + 32) as u8,
            None => 32,
        },
        None => 35,
    }
}

/// The place of `size` that is nearest to another one.
pub open spec fn nearest_place(at: int, size: int) -> int {
    min(at, max(size - 1, 0))
}

/// The cell nearest to a column and a row that may lie outside of the grid.
pub fn clamped_cell(col: usize, row: usize, cols: usize, rows: usize) -> (cell: (usize, usize))
    ensures
        cell.0 == min(col as int, max(cols - 1, 0)),
        cell.1 == min(row as int, max(rows - 1, 0)),
        cell.0 == nearest_place(col as int, cols as int),
        cell.1 == nearest_place(row as int, rows as int),
{
    (col.min(cols.saturating_sub(1)), row.min(rows.saturating_sub(1)))
}

/// Counts the bytes that arrive per second.
#[derive(Clone, Copy, Debug, PartialEq, Eq, Structural)]
pub struct RateMeter {
    pub bytes_this_second: usize,
    pub bytes_per_second: usize,
}

impl RateMeter {
    pub fn new() -> (meter: Self)
        ensures
            meter == (RateMeter { bytes_this_second: 0, bytes_per_second: 0 }),
    {
        RateMeter { bytes_this_second: 0, bytes_per_second: 0 }
    }

    /// The meter after `count` more bytes.
    pub open spec fn counted(self, count: int) -> RateMeter {
        RateMeter {
            bytes_this_second: min(self.bytes_this_second + count, usize::MAX as int) as usize,
            ..self
        }
    }

    pub fn on_bytes(&mut self, count: usize)
        ensures
            *final(self) == old(self).counted(count as int),
    {
        self.bytes_this_second = self.bytes_this_second.saturating_add(count);
    }

    /// The meter after the current second was closed.
    pub open spec fn closed_second(self) -> RateMeter {
        RateMeter { bytes_this_second: 0, bytes_per_second: self.bytes_this_second }
    }

    /// Closes the current second when at least one has passed since the last
    /// time. The result tells whether it did.
    pub fn tick_rates(&mut self, elapsed_seconds: u64) -> (ticked: bool)
        ensures
            ticked == (elapsed_seconds >= 1),
            ticked ==> *final(self) == (RateMeter {
                bytes_this_second: 0,
                bytes_per_second: old(self).bytes_this_second,
            }),
            ticked ==> *final(self) == old(self).closed_second(),
            !ticked ==> *final(self) == *old(self),
    {
        if elapsed_seconds >= 1 {
            self.bytes_per_second = self.bytes_this_second;
            self.bytes_this_second = 0;
            true
        } else {
            false
        }
    }
}

/// The bytes of some chunks in a row.
pub open spec fn joined(chunks: Seq<Seq<u8>>) -> Seq<u8>
    decreases chunks.len(),
{
    if chunks.len() == 0 {
        Seq::empty()
    } else {
        joined(chunks.drop_last()) + chunks.last()
    }
}

fn join_chunks(chunks: &Vec<Vec<u8>>) -> (bytes: Vec<u8>)
    ensures
        bytes@ == joined(nested(chunks@)),
{
    let mut bytes: Vec<u8> = Vec::new();
    let mut i: usize = 0;
    let ghost all = nested(chunks@);
    assert(all.take(0) =~= Seq::<Seq<u8>>::empty());
    while i < chunks.len()
        invariant
            i <= chunks@.len(),
            all == nested(chunks@),
            bytes@ == joined(all.take(i as int)),
        decreases chunks@.len() - i,
    {
        bytes.extend_from_slice(chunks[i].as_slice());
        i = i + 1;
        assert(all.take(i as int).drop_last() =~= all.take(i - 1));
        assert(bytes@ =~= joined(all.take(i as int)));
    }
    assert(all.take(i as int) =~= all);
    bytes
}

/// What a change of the window asks of the program around.
#[derive(Clone, Copy, Debug, PartialEq, Eq, Structural)]
pub struct ResizeAction {
    /// Tell the program that its terminal has another size.
    pub resize_pty: bool,
    /// Prepare all rows for drawing again.
    pub upload_all: bool,
}

/// A terminal window: the screen, the reader of output, and the state of keys
/// and pointer.
pub struct Session {
    pub screen: Screen,
    pub parser: AnsiParser,
    pub modifiers: ModifiersState,
    pub selection: SelectionState,
    /// The cell under the pointer, as column and row.
    pub pointer: (usize, usize),
    /// The button that was reported as pressed.
    pub held_button: Option<MouseButton>,
    pub profiler_enabled: bool,
    pub rates: RateMeter,
}

/// The command that prints without end, as it is typed.
pub open spec fn stress_input() -> Seq<u8> {
    encode_utf8("yes 'ultraterm stress output 0123456789 abcdefghijklmnopqrstuvwxyz'\n"@)
}

impl Session {
    pub open spec fn wf(&self) -> bool {
        self.screen.wf()
    }

    /// What has to be done about a key.
    pub open spec fn key_action(&self, event: KeyEvent) -> KeyActionModel {
        let modes = self.parser.current_modes();
        let text = match event.text {
            Some(chars) => Some(chars@),
            None => None,
        };
        match font_size_shortcut(event, self.modifiers) {
            Some(action) => KeyActionModel::ChangeFontSize(action),
            None => match shortcut_of(event, self.modifiers, self.selection.is_range()) {
                Some(Shortcut::Copy) => KeyActionModel::Copy(
                    self.screen@.selection(self.selection.anchor->0, self.selection.head->0),
                ),
                Some(Shortcut::Interrupt) => KeyActionModel::Command(seq![0x03u8]),
                Some(Shortcut::Paste) => KeyActionModel::Paste,
                Some(Shortcut::ToggleProfiler) => KeyActionModel::ToggleProfiler,
                Some(Shortcut::Stress) => KeyActionModel::Command(stress_input()),
                None => match key_bytes(event, self.modifiers, modes.app_cursor_keys) {
                    Some(bytes) => KeyActionModel::Send(bytes),
                    None => match typed_text_bytes(text, event.state, self.modifiers) {
                        Some(bytes) => KeyActionModel::Send(bytes),
                        None => KeyActionModel::Ignore,
                    },
                },
            },
        }
    }

    /// The terminal after a key.
    pub open spec fn keyed(self, event: KeyEvent) -> Session {
        Session {
            selection: if self.key_action(event) is Paste {
                SelectionState::none()
            } else {
                self.selection
            },
            profiler_enabled: (self.key_action(event) is ToggleProfiler) != self.profiler_enabled,
            ..self
        }
    }

    /// The position under the pointer, as row and column.
    pub open spec fn position(&self) -> (usize, usize) {
        (self.pointer.1, self.pointer.0)
    }

    /// Whether the program wants to know about the mouse.
    pub open spec fn tracks_mouse(&self) -> bool {
        self.parser.current_modes().mouse_tracking != MouseTracking::Off
    }

    /// The terminal after the pointer came to a cell, given as column and row.
    pub open spec fn pointed_at(self, cell: (usize, usize)) -> Session {
        Session {
            pointer: cell,
            selection: if self.tracks_mouse() {
                self.selection
            } else {
                self.selection.dragged_to((cell.1, cell.0))
            },
            ..self
        }
    }

    /// What has to be done when the pointer comes to a cell.
    pub open spec fn move_action(&self, cell: (usize, usize)) -> PointerActionModel {
        let modes = self.parser.current_modes();
        if !self.tracks_mouse() {
            if self.selection.dragging {
                PointerActionModel::Redraw
            } else {
                PointerActionModel::Nothing
            }
        } else if reports_motion(modes.mouse_tracking, self.held_button) {
            PointerActionModel::Report(
                mouse_report_bytes(
                    modes,
                    motion_code(self.held_button),
                    true,
                    cell,
                    self.modifiers,
                ),
            )
        } else {
            PointerActionModel::Nothing
        }
    }

    /// The terminal after a button went down or up.
    pub open spec fn clicked(self, state: ElementState, button: MouseButton) -> Session {
        let pressed = state == ElementState::Pressed;
        if self.tracks_mouse() {
            if button_code(button) is None {
                self
            } else {
                Session {
                    held_button: if pressed {
                        Some(button)
                    } else {
                        None
                    },
                    ..self
                }
            }
        } else if button != MouseButton::Left {
            self
        } else if pressed {
            Session {
                selection: SelectionState {
                    anchor: Some(self.position()),
                    head: Some(self.position()),
                    dragging: true,
                },
                ..self
            }
        } else {
            Session {
                selection: SelectionState { dragging: false, ..self.selection },
                ..self
            }
        }
    }

    /// What has to be done when a button goes down or up.
    pub open spec fn click_action(
        &self,
        state: ElementState,
        button: MouseButton,
    ) -> PointerActionModel {
        let pressed = state == ElementState::Pressed;
        if !self.tracks_mouse() {
            if button == MouseButton::Left {
                PointerActionModel::Redraw
            } else {
                PointerActionModel::Nothing
            }
        } else {
            match button_code(button) {
                Some(code) => PointerActionModel::Report(
                    mouse_report_bytes(
                        self.parser.current_modes(),
                        if pressed {
                            code
                        } else {
                            3
                        },
                        pressed,
                        self.pointer,
                        self.modifiers,
                    ),
                ),
                None => PointerActionModel::Nothing,
            }
        }
    }

    /// What has to be done when the wheel is turned.
    pub open spec fn wheel_action(&self, direction: WheelDirection) -> PointerActionModel {
        let modes = self.parser.current_modes();
        let code: u8 = if direction == WheelDirection::Up {
            64
        } else {
            65
        };
        if modes.mouse_tracking == MouseTracking::Off || direction == WheelDirection::Still {
            PointerActionModel::Nothing
        } else {
            PointerActionModel::Report(
                mouse_report_bytes(modes, code, true, self.pointer, self.modifiers),
            )
        }
    }

    /// What a grid of another size asks of the program around.
    pub open spec fn resize_action(
        &self,
        cols: int,
        rows: int,
        layout_moved: bool,
    ) -> ResizeAction {
        let changed = cols != self.screen@.cols || rows != self.screen@.rows;
        ResizeAction { resize_pty: changed, upload_all: layout_moved && !changed }
    }

    /// What another layout or font asks of the program around.
    pub open spec fn relayout_action(&self, cols: int, rows: int) -> ResizeAction {
        ResizeAction {
            resize_pty: cols != self.screen@.cols || rows != self.screen@.rows,
            upload_all: true,
        }
    }

    /// What text from an input method sends.
    pub open spec fn commit_bytes(&self, text: Seq<char>) -> Option<Seq<u8>> {
        if self.modifiers.super_key || self.modifiers.control_key || text.len() == 0 {
            None
        } else {
            Some(encode_utf8(text))
        }
    }

    /// What pasting a text sends.
    pub open spec fn paste_bytes(&self, text: Seq<char>) -> Seq<u8> {
        if self.parser.current_modes().bracketed_paste {
            bracketed(encode_utf8(text))
        } else {
            encode_utf8(text)
        }
    }

    /// A blank terminal of at least one row and one column.
    pub fn new(cols: usize, rows: usize) -> (session: Self)
        requires
            rows * cols <= usize::MAX,
        ensures
            session.wf(),
            session.screen@ == ScreenModel::fresh(
                max(cols as int, 1),
                max(rows as int, 1),
                SCROLLBACK_LINES as int,
            ),
            session.parser.read() == Seq::<u8>::empty(),
            at_rest(session.parser.read()),
            session.parser.current_modes() == TerminalModes::off(),
            session.modifiers == ModifiersState::empty(),
            session.selection == SelectionState::none(),
            session.pointer == (0usize, 0usize),
            session.held_button is None,
            !session.profiler_enabled,
            session.rates == (RateMeter { bytes_this_second: 0, bytes_per_second: 0 }),
    {
        Session {
            screen: Screen::new(cols, rows, SCROLLBACK_LINES),
            parser: AnsiParser::new(),
            modifiers: ModifiersState::empty(),
            selection: SelectionState::default(),
            pointer: (0, 0),
            held_button: None,
            profiler_enabled: false,
            rates: RateMeter::new(),
        }
    }

    /// The shortcut that a key stands for now.
    pub fn shortcut_for(&self, event: &KeyEvent) -> (shortcut: Option<Shortcut>)
        ensures
            shortcut == shortcut_of(*event, self.modifiers, self.selection.is_range()),
    {
        key_shortcut(event, self.modifiers, self.selection.has_selection())
    }

    /// Whether every selected row still exists.
    pub fn selection_fits(&self) -> (fits: bool)
        ensures
            fits == self.selection.within(self.screen@.rows as int),
    {
        self.selection.fits(self.screen.rows())
    }

    /// Carries out a shortcut. Pasting ends the selection.
    fn take_shortcut(&mut self, shortcut: Shortcut) -> (action: KeyAction)
        requires
            old(self).wf(),
            shortcut == Shortcut::Copy ==> old(self).selection.is_range()
                && old(self).selection.within(old(self).screen@.rows as int),
        ensures
            final(self).wf(),
            action@ == (match shortcut {
                Shortcut::Copy => KeyActionModel::Copy(
                    old(self).screen@.selection(
                        old(self).selection.anchor->0,
                        old(self).selection.head->0,
                    ),
                ),
                Shortcut::Interrupt => KeyActionModel::Command(seq![0x03u8]),
                Shortcut::Paste => KeyActionModel::Paste,
                Shortcut::ToggleProfiler => KeyActionModel::ToggleProfiler,
                Shortcut::Stress => KeyActionModel::Command(stress_input()),
            }),
            *final(self) == (Session {
                selection: if shortcut == Shortcut::Paste {
                    SelectionState::none()
                } else {
                    old(self).selection
                },
                profiler_enabled: (shortcut == Shortcut::ToggleProfiler)
                    != old(self).profiler_enabled,
                ..*old(self)
            }),
    {
        match shortcut {
            Shortcut::Copy => {
                match self.selection.range() {
                    Some(range) => KeyAction::Copy(
                        self.screen.extract_selection_text(range.start, range.end),
                    ),
                    None => KeyAction::Ignore,
                }
            },
            Shortcut::Interrupt => {
                let bytes: Vec<u8> = vec![0x03];
                assert(bytes@ =~= seq![0x03u8]);
                KeyAction::Command(bytes)
            },
            Shortcut::Paste => {
                self.selection.clear();
                KeyAction::Paste
            },
            Shortcut::ToggleProfiler => {
                self.profiler_enabled = !self.profiler_enabled;
                KeyAction::ToggleProfiler
            },
            Shortcut::Stress => {
                let command =
                    "yes 'ultraterm stress output 0123456789 abcdefghijklmnopqrstuvwxyz'\n";
                KeyAction::Command(command.as_bytes_vec())
            },
        }
    }

    /// Decides about a key: a change of the font size, a shortcut, a sequence
    /// or text for the program, in this order.
    pub fn on_key(&mut self, event: &KeyEvent) -> (action: KeyAction)
        requires
            old(self).wf(),
            shortcut_of(*event, old(self).modifiers, old(self).selection.is_range()) == Some(
                Shortcut::Copy,
            ) ==> old(self).selection.within(old(self).screen@.rows as int),
        ensures
            final(self).wf(),
            action@ == old(self).key_action(*event),
            *final(self) == old(self).keyed(*event),
    {
        match font_size_shortcut_action(event, self.modifiers) {
            Some(action) => return KeyAction::ChangeFontSize(action),
            None => {},
        }
        match self.shortcut_for(event) {
            Some(shortcut) => return self.take_shortcut(shortcut),
            None => {},
        }
        let app_cursor_keys: bool = self.parser.modes().app_cursor_keys;
        match key_event_to_bytes(event, self.modifiers, app_cursor_keys) {
            Some(bytes) => return KeyAction::Send(bytes),
            None => {},
        }
        let text: Option<&str> = match &event.text {
            Some(chars) => Some(chars.as_str()),
            None => None,
        };
        match keyboard_text_bytes(text, event.state, self.modifiers) {
            Some(bytes) => KeyAction::Send(bytes),
            None => KeyAction::Ignore,
        }
    }

    /// What text from an input method sends: itself, unless it is empty or the
    /// super or control key is held.
    pub fn on_text_commit(&self, text: &str) -> (bytes: Option<Vec<u8>>)
        ensures
            opt_bytes(bytes) == self.commit_bytes(text@),
    {
        if self.modifiers.super_key || self.modifiers.control_key || text.unicode_len() == 0 {
            None
        } else {
            Some(text.as_bytes_vec())
        }
    }

    /// What pasting a text sends, with the marks of bracketed paste if the
    /// program asked for them.
    pub fn paste_payload(&self, text: &str) -> (bytes: Vec<u8>)
        ensures
            bytes@ == self.paste_bytes(text@),
    {
        if self.parser.modes().bracketed_paste {
            wrap_bracketed_paste(text)
        } else {
            text.as_bytes_vec()
        }
    }

    /// The pointer came to another cell, given as column and row: a selection
    /// is dragged along, or a program that tracks the mouse is told.
    pub fn on_cursor_moved(&mut self, cell: (usize, usize)) -> (action: PointerAction)
        ensures
            *final(self) == old(self).pointed_at(cell),
            action@ == old(self).move_action(cell),
    {
        self.pointer = cell;
        let modes: TerminalModes = *self.parser.modes();
        let allow_motion: bool = match modes.mouse_tracking {
            MouseTracking::Off => {
                if self.selection.dragging {
                    self.selection.update_head((cell.1, cell.0));
                    return PointerAction::Redraw;
                }
                false
            },
            MouseTracking::Click => false,
            MouseTracking::Drag => self.held_button.is_some(),
            MouseTracking::Motion => true,
        };
        if allow_motion {
            let code: u8 = match self.held_button {
                Some(button) => match mouse_button_code(button) {
                    Some(code) => code.saturating_add(32),
                    None => 32,
                },
                None => 35,
            };
            PointerAction::Report(mouse_report(&modes, code, true, cell, self.modifiers))
        } else {
            PointerAction::Nothing
        }
    }

    /// A button went down or up: the left one starts and ends a selection, or a
    /// program that tracks the mouse is told.
    pub fn on_mouse_input(&mut self, state: ElementState, button: MouseButton) -> (action:
        PointerAction)
        ensures
            *final(self) == old(self).clicked(state, button),
            action@ == old(self).click_action(state, button),
    {
        let modes: TerminalModes = *self.parser.modes();
        if modes.mouse_tracking == MouseTracking::Off {
            if button != MouseButton::Left {
                return PointerAction::Nothing;
            }
            match state {
                ElementState::Pressed => {
                    self.selection.set_anchor((self.pointer.1, self.pointer.0));
                },
                ElementState::Released => self.selection.end_drag(),
            }
            return PointerAction::Redraw;
        }
        match mouse_button_code(button) {
            Some(code) => {
                match state {
                    ElementState::Pressed => {
                        self.held_button = Some(button);
                        PointerAction::Report(
                            mouse_report(&modes, code, true, self.pointer, self.modifiers),
                        )
                    },
                    ElementState::Released => {
                        self.held_button = None;
                        PointerAction::Report(
                            mouse_report(&modes, 3, false, self.pointer, self.modifiers),
                        )
                    },
                }
            },
            None => PointerAction::Nothing,
        }
    }

    /// The wheel was turned: a program that tracks the mouse is told.
    pub fn on_mouse_wheel(&self, direction: WheelDirection) -> (action: PointerAction)
        ensures
            action@ == self.wheel_action(direction),
    {
        let modes: TerminalModes = *self.parser.modes();
        if modes.mouse_tracking == MouseTracking::Off {
            return PointerAction::Nothing;
        }
        match direction {
            WheelDirection::Up => PointerAction::Report(
                mouse_report(&modes, 64, true, self.pointer, self.modifiers),
            ),
            WheelDirection::Down => PointerAction::Report(
                mouse_report(&modes, 65, true, self.pointer, self.modifiers),
            ),
            WheelDirection::Still => PointerAction::Nothing,
        }
    }

    /// Takes all the chunks of output that have arrived, as one piece. The
    /// result is what has to be sent back, or nothing if no byte arrived.
    pub fn on_output(&mut self, chunks: &Vec<Vec<u8>>) -> (replies: Option<Vec<Vec<u8>>>)
        requires
            old(self).wf(),
        ensures
            final(self).wf(),
            replies is None <==> joined(nested(chunks@)).len() == 0,
            replies is None ==> *final(self) == *old(self),
            replies is Some ==> ({
                let bytes = joined(nested(chunks@));
                &&& final(self).parser.read() == old(self).parser.read() + bytes
                &&& processed(
                    old(self).parser.read(),
                    bytes,
                    terminal_of(
                        old(self).screen@,
                        old(self).parser.current_modes(),
                        Seq::empty(),
                    ),
                    terminal_of(
                        final(self).screen@,
                        final(self).parser.current_modes(),
                        replies->0@,
                    ),
                )
                &&& *final(self) == (Session {
                    screen: final(self).screen,
                    parser: final(self).parser,
                    rates: old(self).rates.counted(bytes.len() as int),
                    ..*old(self)
                })
            }),
    {
        let bytes: Vec<u8> = join_chunks(chunks);
        if bytes.len() == 0 {
            return None;
        }
        self.rates.on_bytes(bytes.len());
        Some(self.parser.process(bytes.as_slice(), &mut self.screen))
    }

    /// The window has room for a grid of another size. If it is the same size
    /// but the layout moved, everything is drawn again.
    pub fn apply_resize(&mut self, cols: usize, rows: usize, layout_moved: bool) -> (action:
        ResizeAction)
        requires
            old(self).wf(),
            rows * cols <= usize::MAX,
        ensures
            final(self).wf(),
            action.resize_pty == (cols != old(self).screen@.cols || rows
                != old(self).screen@.rows),
            action.upload_all == (layout_moved && !action.resize_pty),
            action == old(self).resize_action(cols as int, rows as int, layout_moved),
            final(self).screen@ == (if action.upload_all {
                old(self).screen@.marked_all()
            } else {
                old(self).screen@.with_size(cols as int, rows as int)
            }),
            *final(self) == (Session { screen: final(self).screen, ..*old(self) }),
    {
        if cols != self.screen.cols() || rows != self.screen.rows() {
            self.screen.resize(cols, rows);
            ResizeAction { resize_pty: true, upload_all: false }
        } else if layout_moved {
            self.screen.mark_all_dirty();
            ResizeAction { resize_pty: false, upload_all: true }
        } else {
            ResizeAction { resize_pty: false, upload_all: false }
        }
    }

    /// The layout or the font changed: the grid gets the size that now fits,
    /// and everything is drawn again in any case.
    pub fn relayout(&mut self, cols: usize, rows: usize) -> (action: ResizeAction)
        requires
            old(self).wf(),
            rows * cols <= usize::MAX,
        ensures
            final(self).wf(),
            action.resize_pty == (cols != old(self).screen@.cols || rows
                != old(self).screen@.rows),
            action.upload_all,
            action == old(self).relayout_action(cols as int, rows as int),
            final(self).screen@ == old(self).screen@.with_size(
                cols as int,
                rows as int,
            ).marked_all(),
            *final(self) == (Session { screen: final(self).screen, ..*old(self) }),
    {
        let changed: bool = cols != self.screen.cols() || rows != self.screen.rows();
        if changed {
            self.screen.resize(cols, rows);
        }
        self.screen.mark_all_dirty();
        ResizeAction { resize_pty: changed, upload_all: true }
    }
}

} // verus!

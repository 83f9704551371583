//! The terminal screen: cells, colours, the two buffers and the scrollback.

mod buffer;
pub mod cell;
pub mod model;
pub mod palette;
pub mod scrollback;
pub mod terminal_screen;
pub mod text;
pub mod width;

pub use crate::screen::cell::{
    cursor_color, default_bg, default_fg, AttrState, Cell, CellFlags, Cursor, CursorShape, Rgb,
};
pub use crate::screen::palette::{ansi_256_to_rgb, basic_ansi_to_rgb};
pub use crate::screen::scrollback::ScrollbackRing;
pub use crate::screen::terminal_screen::Screen;

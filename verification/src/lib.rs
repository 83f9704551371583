//! The core of a terminal emulator: the screen grid, the interpretation of
//! terminal output, and the decisions behind keyboard, mouse and drawing.
//!
//! Everything here is plain computation on plain values; windows, the GPU, the
//! pseudo-terminal and the clipboard belong to the program around it.

pub mod screen;
pub mod decimal;
pub mod vt;
pub mod parser;
pub mod input;
pub mod selection;
pub mod session;
pub mod atlas;
pub mod draw;
pub mod pty;
pub mod headless;
pub mod laws;

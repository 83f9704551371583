//! What holds of the terminal as a whole: statements that relate several
//! operations, or that hold of every output a program can send.

pub mod colors;
pub mod copying;
pub mod drawing;
pub mod erasing;
pub mod evolution;
pub mod frames;
pub mod keys;
pub mod launching;
pub mod marking;
pub mod modes;
pub mod mouse;
pub mod moving;
pub mod pages;
pub mod pointer;
pub mod printing;
pub mod resizing;
pub mod saving;
pub mod screen;
pub mod scrolling;
pub mod stream;
pub mod text;
pub mod typing;

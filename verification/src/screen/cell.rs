//! Cells, colours, character attributes and the cursor.

use vstd::prelude::*;

verus! {

/// A colour with eight bits per channel.
#[derive(Clone, Copy, Debug, PartialEq, Eq, Structural)]
pub struct Rgb {
    pub r: u8,
    pub g: u8,
    pub b: u8,
}

impl Rgb {
    #[verifier::allow_in_spec]
    pub fn new(r: u8, g: u8, b: u8) -> Self
        returns
            (Rgb { r: r, g: g, b: b }),
    {
        Rgb { r: r, g: g, b: b }
    }
}

/// The foreground of unstyled text.
#[verifier::allow_in_spec]
pub fn default_fg() -> Rgb
    returns
        (Rgb { r: 230, g: 230, b: 230 }),
{
    Rgb { r: 230, g: 230, b: 230 }
}

/// The background of unstyled text and of erased cells.
#[verifier::allow_in_spec]
pub fn default_bg() -> Rgb
    returns
        (Rgb { r: 12, g: 12, b: 12 }),
{
    Rgb { r: 12, g: 12, b: 12 }
}

/// The colour the cursor is drawn in.
#[verifier::allow_in_spec]
pub fn cursor_color() -> Rgb
    returns
        (Rgb { r: 240, g: 240, b: 240 }),
{
    Rgb { r: 240, g: 240, b: 240 }
}

/// A set of cell properties, one bit each.
#[derive(Clone, Copy, Debug, PartialEq, Eq, Structural)]
pub struct CellFlags {
    pub bits: u8,
}

impl CellFlags {
    #[verifier::allow_in_spec]
    pub fn empty() -> Self
        returns
            (CellFlags { bits: 0 }),
    {
        CellFlags { bits: 0 }
    }

    #[verifier::allow_in_spec]
    pub fn bold() -> Self
        returns
            (CellFlags { bits: 0b0000_0001 }),
    {
        CellFlags { bits: 0b0000_0001 }
    }

    #[verifier::allow_in_spec]
    pub fn italic() -> Self
        returns
            (CellFlags { bits: 0b0000_0010 }),
    {
        CellFlags { bits: 0b0000_0010 }
    }

    #[verifier::allow_in_spec]
    pub fn underline() -> Self
        returns
            (CellFlags { bits: 0b0000_0100 }),
    {
        CellFlags { bits: 0b0000_0100 }
    }

    #[verifier::allow_in_spec]
    pub fn inverse() -> Self
        returns
            (CellFlags { bits: 0b0000_1000 }),
    {
        CellFlags { bits: 0b0000_1000 }
    }

    #[verifier::allow_in_spec]
    pub fn wide() -> Self
        returns
            (CellFlags { bits: 0b0001_0000 }),
    {
        CellFlags { bits: 0b0001_0000 }
    }

    /// Marks the right half of a character that is two columns wide.
    #[verifier::allow_in_spec]
    pub fn wide_cont() -> Self
        returns
            (CellFlags { bits: 0b0010_0000 }),
    {
        CellFlags { bits: 0b0010_0000 }
    }

    /// Whether every flag of `other` is set.
    #[verifier::allow_in_spec]
    pub fn contains(self, other: CellFlags) -> bool
        returns
            self.bits & other.bits == other.bits,
    {
        self.bits & other.bits == other.bits
    }

    /// The flags that are set in either.
    #[verifier::allow_in_spec]
    pub fn union(self, other: CellFlags) -> Self
        returns
            (CellFlags { bits: self.bits | other.bits }),
    {
        CellFlags { bits: self.bits | other.bits }
    }
}

/// One column of one row.
#[derive(Clone, Copy, Debug, PartialEq, Eq, Structural)]
pub struct Cell {
    pub ch: char,
    pub fg: Rgb,
    pub bg: Rgb,
    pub flags: CellFlags,
}

impl Cell {
    /// An erased cell.
    #[verifier::allow_in_spec]
    pub fn blank() -> Self
        returns
            (Cell { ch: ' ', fg: default_fg(), bg: default_bg(), flags: CellFlags::empty() }),
    {
        Cell { ch: ' ', fg: default_fg(), bg: default_bg(), flags: CellFlags::empty() }
    }
}

/// How the next printed characters will look.
#[derive(Clone, Copy, Debug, PartialEq, Eq, Structural)]
pub struct AttrState {
    pub fg: Rgb,
    pub bg: Rgb,
    pub bold: bool,
    pub italic: bool,
    pub underline: bool,
    pub inverse: bool,
}

impl AttrState {
    /// Default colours and no style.
    pub open spec fn plain() -> AttrState {
        AttrState {
            fg: default_fg(),
            bg: default_bg(),
            bold: false,
            italic: false,
            underline: false,
            inverse: false,
        }
    }
}

impl Default for AttrState {
    fn default() -> (attrs: Self)
        ensures
            attrs == AttrState::plain(),
    {
        AttrState {
            fg: default_fg(),
            bg: default_bg(),
            bold: false,
            italic: false,
            underline: false,
            inverse: false,
        }
    }
}

#[derive(Clone, Copy, Debug, PartialEq, Eq, Structural)]
pub enum CursorShape {
    Block,
    Beam,
    Underline,
}

#[derive(Clone, Copy, Debug, PartialEq, Eq, Structural)]
pub struct Cursor {
    pub row: usize,
    pub col: usize,
    pub visible: bool,
    pub shape: CursorShape,
}

impl Cursor {
    /// A visible block cursor in the top left corner.
    pub open spec fn home() -> Cursor {
        Cursor { row: 0, col: 0, visible: true, shape: CursorShape::Block }
    }

    /// The same cursor in another place.
    pub open spec fn at(self, row: int, col: int) -> Cursor {
        Cursor { row: row as usize, col: col as usize, ..self }
    }
}

impl Default for Cursor {
    fn default() -> (cursor: Self)
        ensures
            cursor == Cursor::home(),
    {
        Cursor { row: 0, col: 0, visible: true, shape: CursorShape::Block }
    }
}

} // verus!

//! A plain terminal cell: one character, two colors and style flags.
use vstd::prelude::*;

verus! {

/// Style flags of a cell.
#[derive(Debug, Clone, Copy, Default, PartialEq, Eq, Structural)]
pub struct CellFlags {
    pub bold: bool,
    pub italic: bool,
    pub underline: bool,
    pub strikethrough: bool,
    pub dim: bool,
    pub inverse: bool,
    pub hidden: bool,
    pub blink: bool,
}

/// A color.
#[derive(Debug, Clone, Copy, PartialEq, Eq, Structural)]
pub enum Color {
    /// The default foreground or background.
    Default,
    /// A named color (0 to 7 standard, 8 to 15 bright).
    Named(u8),
    /// An entry of the 256-color palette.
    Indexed(u8),
    /// A true color.
    Rgb(u8, u8, u8),
}

impl Default for Color {
    fn default() -> (c: Color)
        ensures
            c == Color::Default,
    {
        Color::Default
    }
}

/// A terminal cell.
#[derive(Debug, Clone, Copy, PartialEq, Eq, Structural)]
pub struct Cell {
    /// The character.
    pub c: char,
    /// The foreground color.
    pub fg: Color,
    /// The background color.
    pub bg: Color,
    /// The style flags.
    pub flags: CellFlags,
    /// The width (1, 2 for a wide character, 0 for the column a wide
    /// character covers after its first).
    pub width: u8,
}

/// No style flag set.
pub open spec fn no_flags() -> CellFlags {
    CellFlags {
        bold: false,
        italic: false,
        underline: false,
        strikethrough: false,
        dim: false,
        inverse: false,
        hidden: false,
        blink: false,
    }
}

/// The default cell: a space in default colors, no style, width 1.
pub open spec fn default_cell() -> Cell {
    Cell { c: ' ', fg: Color::Default, bg: Color::Default, flags: no_flags(), width: 1 }
}

impl Default for Cell {
    fn default() -> (c: Cell)
        ensures
            c == default_cell(),
    {
        Cell {
            c: ' ',
            fg: Color::Default,
            bg: Color::Default,
            flags: CellFlags {
                bold: false,
                italic: false,
                underline: false,
                strikethrough: false,
                dim: false,
                inverse: false,
                hidden: false,
                blink: false,
            },
            width: 1,
        }
    }
}

impl Cell {
    /// The default cell holding `c`.
    pub fn new(c: char) -> (cell: Cell)
        ensures
            cell == (Cell { c, ..default_cell() }),
    {
        Cell { c, ..Cell::default() }
    }

    /// The default cell holding `c` in the given colors.
    pub fn with_colors(c: char, fg: Color, bg: Color) -> (cell: Cell)
        ensures
            cell == (Cell { c, fg, bg, ..default_cell() }),
    {
        Cell { c, fg, bg, ..Cell::default() }
    }

    /// Back to the default cell.
    pub fn reset(&mut self)
        ensures
            *final(self) == default_cell(),
    {
        *self = Cell::default();
    }

    /// Whether the cell shows a space in default colors.
    pub fn is_empty(&self) -> (r: bool)
        ensures
            r == (self.c == ' ' && self.fg == Color::Default && self.bg == Color::Default),
    {
        self.c == ' ' && self.fg == Color::Default && self.bg == Color::Default
    }

    /// Whether the cell is the column a wide character covers after its first.
    pub fn is_wide_continuation(&self) -> (r: bool)
        ensures
            r == (self.width == 0),
    {
        self.width == 0
    }
}

} // verus!

//! Terminal colors: ANSI 16 / 256 palette indices, RGB true color, and the
//! theme's default foreground and background.
use vstd::prelude::*;

verus! {

/// A terminal color.
#[derive(Debug, Clone, Copy, PartialEq, Eq, Structural)]
pub enum Color {
    /// The theme's default foreground color.
    DefaultForeground,
    /// The theme's default background color.
    DefaultBackground,
    /// A palette index: 0-7 standard, 8-15 bright, 16-255 the 256-color palette.
    Indexed(u8),
    /// A 24-bit color.
    Rgb { r: u8, g: u8, b: u8 },
}

impl Default for Color {
    fn default() -> (c: Color)
        ensures
            c == Color::DefaultForeground,
    {
        Color::DefaultForeground
    }
}

impl Color {
    /// Standard ANSI color `index` (0-7).
    pub fn ansi(index: u8) -> (c: Color)
        requires
            index < 8,
        ensures
            c == Color::Indexed(index),
    {
        Color::Indexed(index)
    }

    /// Bright ANSI color `index` (0-7), that is palette entry `index + 8`.
    pub fn bright_ansi(index: u8) -> (c: Color)
        requires
            index < 8,
        ensures
            c == Color::Indexed((index + 8) as u8),
    {
        Color::Indexed(index + 8)
    }

    /// A 24-bit color.
    pub fn rgb(r: u8, g: u8, b: u8) -> (c: Color)
        ensures
            c == (Color::Rgb { r, g, b }),
    {
        Color::Rgb { r, g, b }
    }

    /// Gray level `level` (0-23) of the 256-color palette, entries 232-255.
    pub fn gray(level: u8) -> (c: Color)
        requires
            level < 24,
        ensures
            c == Color::Indexed((232 + level) as u8),
    {
        Color::Indexed(232 + level)
    }

    /// Whether this is one of the two theme default colors.
    pub fn is_default(&self) -> (r: bool)
        ensures
            r == (*self is DefaultForeground || *self is DefaultBackground),
    {
        match self {
            Color::DefaultForeground | Color::DefaultBackground => true,
            _ => false,
        }
    }

    #[allow(non_snake_case)]
    pub fn BLACK() -> (c: Color)
        ensures
            c == Color::Indexed(0),
    {
        Color::Indexed(0)
    }

    #[allow(non_snake_case)]
    pub fn RED() -> (c: Color)
        ensures
            c == Color::Indexed(1),
    {
        Color::Indexed(1)
    }

    #[allow(non_snake_case)]
    pub fn GREEN() -> (c: Color)
        ensures
            c == Color::Indexed(2),
    {
        Color::Indexed(2)
    }

    #[allow(non_snake_case)]
    pub fn YELLOW() -> (c: Color)
        ensures
            c == Color::Indexed(3),
    {
        Color::Indexed(3)
    }

    #[allow(non_snake_case)]
    pub fn BLUE() -> (c: Color)
        ensures
            c == Color::Indexed(4),
    {
        Color::Indexed(4)
    }

    #[allow(non_snake_case)]
    pub fn MAGENTA() -> (c: Color)
        ensures
            c == Color::Indexed(5),
    {
        Color::Indexed(5)
    }

    #[allow(non_snake_case)]
    pub fn CYAN() -> (c: Color)
        ensures
            c == Color::Indexed(6),
    {
        Color::Indexed(6)
    }

    #[allow(non_snake_case)]
    pub fn WHITE() -> (c: Color)
        ensures
            c == Color::Indexed(7),
    {
        Color::Indexed(7)
    }

    #[allow(non_snake_case)]
    pub fn BRIGHT_BLACK() -> (c: Color)
        ensures
            c == Color::Indexed(8),
    {
        Color::Indexed(8)
    }

    #[allow(non_snake_case)]
    pub fn BRIGHT_RED() -> (c: Color)
        ensures
            c == Color::Indexed(9),
    {
        Color::Indexed(9)
    }

    #[allow(non_snake_case)]
    pub fn BRIGHT_GREEN() -> (c: Color)
        ensures
            c == Color::Indexed(10),
    {
        Color::Indexed(10)
    }

    #[allow(non_snake_case)]
    pub fn BRIGHT_YELLOW() -> (c: Color)
        ensures
            c == Color::Indexed(11),
    {
        Color::Indexed(11)
    }

    #[allow(non_snake_case)]
    pub fn BRIGHT_BLUE() -> (c: Color)
        ensures
            c == Color::Indexed(12),
    {
        Color::Indexed(12)
    }

    #[allow(non_snake_case)]
    pub fn BRIGHT_MAGENTA() -> (c: Color)
        ensures
            c == Color::Indexed(13),
    {
        Color::Indexed(13)
    }

    #[allow(non_snake_case)]
    pub fn BRIGHT_CYAN() -> (c: Color)
        ensures
            c == Color::Indexed(14),
    {
        Color::Indexed(14)
    }

    #[allow(non_snake_case)]
    pub fn BRIGHT_WHITE() -> (c: Color)
        ensures
            c == Color::Indexed(15),
    {
        Color::Indexed(15)
    }
}

} // verus!

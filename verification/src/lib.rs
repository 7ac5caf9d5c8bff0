//! Core of a terminal emulator: the cell grid, its screen and scrollback,
//! the cursor and modes of the terminal state, and shell integration
//! (OSC 133 / 633 / 7) zone tracking.
use vstd::prelude::*;

pub mod buffer;
pub mod config;
pub mod event;
pub mod grid;
pub mod platform;
pub mod pty;
pub mod shell_integration;
pub mod terminal;
pub mod text;
pub mod vte_performer;

pub use config::{PtyConfig, TerminalConfig};

verus! {

/// The version of the library.
pub const VERSION: &'static str = "0.1.0";

/// A terminal size in cells (and, where known, pixels).
#[derive(Debug, Clone, Copy, PartialEq, Eq, Structural)]
pub struct TerminalSize {
    /// Rows.
    pub rows: u16,
    /// Columns.
    pub cols: u16,
    /// Width in pixels (0 when unknown).
    pub pixel_width: u16,
    /// Height in pixels (0 when unknown).
    pub pixel_height: u16,
}

impl TerminalSize {
    /// A size of `rows` by `cols` cells, pixels unknown.
    pub fn new(rows: u16, cols: u16) -> (s: TerminalSize)
        ensures
            s == (TerminalSize { rows, cols, pixel_width: 0, pixel_height: 0 }),
    {
        TerminalSize { rows, cols, pixel_width: 0, pixel_height: 0 }
    }
}

} // verus!

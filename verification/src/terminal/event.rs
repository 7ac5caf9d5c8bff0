//! The events a terminal view emits.
use vstd::prelude::*;

use crate::shell_integration::ShellEvent;

verus! {

/// An event of the terminal view.
#[derive(Debug, Clone)]
pub enum TerminalEvent {
    /// Output of the process.
    Output(Vec<u8>),
    /// The bell rang.
    Bell,
    /// The title changed.
    TitleChanged(String),
    /// The cursor moved.
    CursorMoved { x: usize, y: usize },
    /// The view scrolled.
    Scrolled { lines: i32 },
    /// The view was resized.
    Resized { cols: usize, rows: usize },
    /// The process exited.
    ProcessExited { exit_code: Option<i32> },
    /// An error, as its message.
    Error(String),
    /// A shell integration event.
    ShellIntegration(ShellEvent),
}

} // verus!

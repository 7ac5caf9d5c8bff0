//! Events a terminal reports to whoever listens to it.
use vstd::prelude::*;

use crate::shell_integration::OscSequence;

verus! {

/// An event of the terminal.
#[derive(Debug)]
pub enum TerminalEvent {
    /// The terminal needs to be drawn again.
    Wakeup,
    /// Output of the process, still to be parsed.
    PtyOutput(Vec<u8>),
    /// Bytes to send to the process (answers such as a status report).
    PtyWrite(Vec<u8>),
    /// The window title changed.
    TitleChanged(String),
    /// The bell rang.
    BellRing,
    /// Text to copy to the clipboard.
    ClipboardCopy(String),
    /// Text pasted from the clipboard.
    ClipboardPaste(String),
    /// The terminal was resized.
    Resized { rows: u16, cols: u16 },
    /// A shell integration event.
    ShellIntegration(ShellIntegrationEvent),
    /// The process exited.
    ProcessExit { exit_code: Option<i32> },
    /// An error, as its message.
    Error(String),
}

/// A shell integration event.
#[derive(Debug)]
pub enum ShellIntegrationEvent {
    /// A prompt starts at `line`.
    PromptStart { line: usize },
    /// The command line starts at `line`.
    CommandStart { line: usize },
    /// The command runs from `line`.
    CommandExecuting { line: usize },
    /// The command finished at `line`.
    CommandFinished { line: usize, exit_code: Option<i32> },
    /// The working directory changed.
    WorkingDirectoryChanged(String),
    /// An OSC sequence as it was read.
    RawOscSequence(OscSequence),
}

/// Receives the events of a terminal.
pub trait TerminalEventListener {
    /// Handles one event.
    fn on_event(&self, event: TerminalEvent);
}

/// A listener that drops every event.
pub struct NullEventListener;

impl TerminalEventListener for NullEventListener {
    /// Drops the event.
    fn on_event(&self, event: TerminalEvent) {
    }
}

} // verus!

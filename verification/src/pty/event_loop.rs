//! Messages to the writer loop and the decisions of the reader, writer and
//! child-monitor loops.
use vstd::prelude::*;

use crate::TerminalSize;

verus! {

/// The size of the buffer the reader loop reads into (512 KiB).
pub const PTY_READ_BUFFER_SIZE: usize = 524288;

/// How long the reader loop waits after a read that would block, in
/// milliseconds.
pub const READ_RETRY_MS: u64 = 10;

/// How long the child monitor waits between looks, in milliseconds.
pub const CHILD_POLL_MS: u64 = 100;

/// How long the writer loop waits for a message, in milliseconds.
pub const WRITE_WAIT_MS: u64 = 100;

/// A message to the writer loop.
#[derive(Debug)]
pub enum PtyMessage {
    /// Bytes to write to the process.
    Input(Vec<u8>),
    /// A new size for the pseudo terminal.
    Resize(TerminalSize),
    /// Stop the loops.
    Shutdown,
}

/// What a read from the process gave.
#[derive(Debug, Clone, Copy, PartialEq, Eq, Structural)]
pub enum ReadOutcome {
    /// This many bytes (more than zero).
    Data(usize),
    /// End of input.
    Eof,
    /// The read was interrupted.
    Interrupted,
    /// The read would block.
    WouldBlock,
    /// Any other error.
    Failed,
}

/// What the reader loop does next.
#[derive(Debug, Clone, Copy, PartialEq, Eq, Structural)]
pub enum ReadAction {
    /// Report the first this many bytes as output, then read again.
    Emit(usize),
    /// Read again at once.
    Retry,
    /// Wait this many milliseconds, then read again.
    WaitMs(u64),
    /// Stop the loops.
    Stop,
}

/// The reader loop's decision on a read: data is reported, an interrupted
/// read is retried, a read that would block is retried after a short wait,
/// and the end of input or an error stops the loops.
pub fn read_step(outcome: ReadOutcome) -> (a: ReadAction)
    ensures
        a == (match outcome {
            ReadOutcome::Data(n) => ReadAction::Emit(n),
            ReadOutcome::Eof => ReadAction::Stop,
            ReadOutcome::Interrupted => ReadAction::Retry,
            ReadOutcome::WouldBlock => ReadAction::WaitMs(READ_RETRY_MS),
            ReadOutcome::Failed => ReadAction::Stop,
        }),
{
    match outcome {
        ReadOutcome::Data(n) => ReadAction::Emit(n),
        ReadOutcome::Eof => ReadAction::Stop,
        ReadOutcome::Interrupted => ReadAction::Retry,
        ReadOutcome::WouldBlock => ReadAction::WaitMs(READ_RETRY_MS),
        ReadOutcome::Failed => ReadAction::Stop,
    }
}

/// What the writer loop got while waiting for a message.
#[derive(Debug)]
pub enum WriteEvent {
    /// A message.
    Message(PtyMessage),
    /// No message came in time.
    Timeout,
    /// Every sender is gone.
    Disconnected,
}

/// What the writer loop does next.
#[derive(Debug)]
pub enum WriteAction {
    /// Write these bytes (and flush once written); a failed write stops
    /// the loops.
    Write(Vec<u8>),
    /// Resize the pseudo terminal (a failure is ignored).
    Resize(TerminalSize),
    /// Wait for the next message.
    Continue,
    /// Stop the loops.
    Stop,
}

/// The writer loop's decision on what it got: input is written, a resize
/// applied, a shutdown or a lost channel stops the loops, a timeout waits
/// on.
pub fn write_step(event: WriteEvent) -> (a: WriteAction)
    ensures
        (match event {
            WriteEvent::Message(PtyMessage::Input(d)) => a matches WriteAction::Write(e) && e@ == d@,
            WriteEvent::Message(PtyMessage::Resize(s)) => a matches WriteAction::Resize(t) && t == s,
            WriteEvent::Message(PtyMessage::Shutdown) => a is Stop,
            WriteEvent::Timeout => a is Continue,
            WriteEvent::Disconnected => a is Stop,
        }),
{
    match event {
        WriteEvent::Message(PtyMessage::Input(d)) => WriteAction::Write(d),
        WriteEvent::Message(PtyMessage::Resize(s)) => WriteAction::Resize(s),
        WriteEvent::Message(PtyMessage::Shutdown) => WriteAction::Stop,
        WriteEvent::Timeout => WriteAction::Continue,
        WriteEvent::Disconnected => WriteAction::Stop,
    }
}

/// What a look at the child process found.
#[derive(Debug, Clone, Copy, PartialEq, Eq, Structural)]
pub enum ChildPoll {
    /// It exited with this status code.
    Exited(u32),
    /// It still runs.
    Running,
    /// The look failed.
    Failed,
}

/// What the child monitor does next.
#[derive(Debug, Clone, Copy, PartialEq, Eq, Structural)]
pub enum MonitorAction {
    /// Report the exit with this code, then stop the loops.
    Report(i32),
    /// Wait this many milliseconds, then look again.
    WaitMs(u64),
    /// Stop the loops.
    Stop,
}

/// The child monitor's decision: an exit is reported (its status read as
/// an `i32`), a running child is looked at again later, a failed look stops
/// the loops.
pub fn monitor_step(poll: ChildPoll) -> (a: MonitorAction)
    ensures
        a == (match poll {
            ChildPoll::Exited(c) => MonitorAction::Report(c as i32),
            ChildPoll::Running => MonitorAction::WaitMs(CHILD_POLL_MS),
            ChildPoll::Failed => MonitorAction::Stop,
        }),
{
    match poll {
        ChildPoll::Exited(c) => MonitorAction::Report(c as i32),
        ChildPoll::Running => MonitorAction::WaitMs(CHILD_POLL_MS),
        ChildPoll::Failed => MonitorAction::Stop,
    }
}

} // verus!

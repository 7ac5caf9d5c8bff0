//! The events shell integration reports.
use vstd::prelude::*;

use super::zone::ZoneId;

verus! {

/// An event of shell integration.
#[derive(Debug, Clone, PartialEq)]
pub enum ShellEvent {
    /// A prompt started (OSC 133 A).
    PromptStarted { zone_id: ZoneId, line: usize },
    /// The user started typing a command (OSC 133 B).
    CommandStarted { zone_id: ZoneId, line: usize },
    /// The command started to run (OSC 133 C).
    CommandExecuting { zone_id: ZoneId, line: usize },
    /// The command ended (OSC 133 D).
    CommandFinished { zone_id: ZoneId, line: usize, exit_code: i32 },
    /// The command text was reported (OSC 633 E).
    CommandCaptured { zone_id: ZoneId, command: String },
    /// The working directory changed (OSC 7).
    WorkingDirectoryChanged { path: String },
}

impl ShellEvent {
    /// The zone the event belongs to, if any.
    pub fn zone_id(&self) -> (r: Option<ZoneId>)
        ensures
            r == (match *self {
                ShellEvent::PromptStarted { zone_id, .. } => Some(zone_id),
                ShellEvent::CommandStarted { zone_id, .. } => Some(zone_id),
                ShellEvent::CommandExecuting { zone_id, .. } => Some(zone_id),
                ShellEvent::CommandFinished { zone_id, .. } => Some(zone_id),
                ShellEvent::CommandCaptured { zone_id, .. } => Some(zone_id),
                ShellEvent::WorkingDirectoryChanged { .. } => None,
            }),
    {
        match self {
            ShellEvent::PromptStarted { zone_id, .. } => Some(*zone_id),
            ShellEvent::CommandStarted { zone_id, .. } => Some(*zone_id),
            ShellEvent::CommandExecuting { zone_id, .. } => Some(*zone_id),
            ShellEvent::CommandFinished { zone_id, .. } => Some(*zone_id),
            ShellEvent::CommandCaptured { zone_id, .. } => Some(*zone_id),
            ShellEvent::WorkingDirectoryChanged { .. } => None,
        }
    }

    /// The line of the event, if it has one.
    pub fn line(&self) -> (r: Option<usize>)
        ensures
            r == (match *self {
                ShellEvent::PromptStarted { line, .. } => Some(line),
                ShellEvent::CommandStarted { line, .. } => Some(line),
                ShellEvent::CommandExecuting { line, .. } => Some(line),
                ShellEvent::CommandFinished { line, .. } => Some(line),
                _ => None,
            }),
    {
        match self {
            ShellEvent::PromptStarted { line, .. } => Some(*line),
            ShellEvent::CommandStarted { line, .. } => Some(*line),
            ShellEvent::CommandExecuting { line, .. } => Some(*line),
            ShellEvent::CommandFinished { line, .. } => Some(*line),
            _ => None,
        }
    }

    /// Whether a prompt started.
    pub fn is_prompt_event(&self) -> (r: bool)
        ensures
            r == (*self is PromptStarted),
    {
        match self {
            ShellEvent::PromptStarted { .. } => true,
            _ => false,
        }
    }

    /// Whether a command ended.
    pub fn is_completion_event(&self) -> (r: bool)
        ensures
            r == (*self is CommandFinished),
    {
        match self {
            ShellEvent::CommandFinished { .. } => true,
            _ => false,
        }
    }

    /// The exit code of an ended command.
    pub fn exit_code(&self) -> (r: Option<i32>)
        ensures
            r == (match *self {
                ShellEvent::CommandFinished { exit_code, .. } => Some(exit_code),
                _ => None,
            }),
    {
        match self {
            ShellEvent::CommandFinished { exit_code, .. } => Some(*exit_code),
            _ => None,
        }
    }
}

} // verus!

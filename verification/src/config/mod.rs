//! Terminal and shell-process configuration.
pub mod env_validation;

use vstd::prelude::*;

use std::path::PathBuf;

use crate::TerminalSize;

pub use env_validation::{get_safe_default_env, validate_env_vars, EnvValidationError};

verus! {

/// How to start the shell.
#[derive(Debug)]
pub struct PtyConfig {
    /// The shell program (the system's default when `None`).
    pub shell: Option<PathBuf>,
    /// Its arguments.
    pub shell_args: Vec<String>,
    /// The directory to start in (the current one when `None`).
    pub working_directory: Option<PathBuf>,
    /// Extra environment variables.
    pub env: Vec<(String, String)>,
    /// The initial size.
    pub initial_size: TerminalSize,
}

impl Default for PtyConfig {
    /// The system's shell, no arguments, the current directory, no extra
    /// variables, 24 rows by 80 columns.
    fn default() -> (c: PtyConfig)
        ensures
            c.shell is None,
            c.shell_args@.len() == 0,
            c.working_directory is None,
            c.env@.len() == 0,
            c.initial_size == (TerminalSize { rows: 24, cols: 80, pixel_width: 0, pixel_height: 0 }),
    {
        PtyConfig {
            shell: None,
            shell_args: Vec::new(),
            working_directory: None,
            env: Vec::new(),
            initial_size: TerminalSize::new(24, 80),
        }
    }
}

/// The shell to run when none is configured: the `SHELL` variable's value
/// where it is set, else `/bin/sh`.
pub fn default_shell(shell_var: Option<String>) -> (r: String)
    ensures
        r@ == (match shell_var {
            Some(v) => v@,
            None => "/bin/sh"@,
        }),
{
    match shell_var {
        Some(v) => v,
        None => "/bin/sh".to_owned(),
    }
}

/// The scrollback limit when none is given: 10000 lines.
pub fn default_scrollback_lines() -> (r: usize)
    ensures
        r == 10000,
{
    10000
}

/// Shell integration is on when not said otherwise.
pub fn default_true() -> (r: bool)
    ensures
        r,
{
    true
}

/// The input batching interval when none is given: 4 ms.
pub fn default_input_batch_ms() -> (r: u64)
    ensures
        r == 4,
{
    4
}

/// The event batching interval when none is given: 4 ms.
pub fn default_event_batch_ms() -> (r: u64)
    ensures
        r == 4,
{
    4
}

/// Terminal settings.
#[derive(Debug, Clone, Copy, PartialEq, Eq, Structural)]
pub struct TerminalConfig {
    /// The most lines kept in scrollback (0 for no limit).
    pub scrollback_lines: usize,
    /// Whether shell integration is on.
    pub enable_shell_integration: bool,
    /// How long input is gathered before it is sent, in milliseconds.
    pub input_batch_ms: u64,
    /// How long events are gathered before they are handled, in milliseconds.
    pub event_batch_ms: u64,
}

impl Default for TerminalConfig {
    /// 10000 lines of scrollback, shell integration on, 4 ms batches.
    fn default() -> (c: TerminalConfig)
        ensures
            c == (TerminalConfig {
                scrollback_lines: 10000,
                enable_shell_integration: true,
                input_batch_ms: 4,
                event_batch_ms: 4,
            }),
    {
        TerminalConfig {
            scrollback_lines: default_scrollback_lines(),
            enable_shell_integration: default_true(),
            input_batch_ms: default_input_batch_ms(),
            event_batch_ms: default_event_batch_ms(),
        }
    }
}

} // verus!

//! How a platform pseudo terminal is configured.
use vstd::prelude::*;

use std::path::PathBuf;

verus! {

/// How to create a pseudo terminal.
#[derive(Debug)]
pub struct PtyConfig {
    /// The shell to run (`None`: detect it).
    pub shell: Option<String>,
    /// The working directory.
    pub working_directory: Option<PathBuf>,
    /// Columns.
    pub cols: u16,
    /// Rows.
    pub rows: u16,
    /// Extra environment variables.
    pub env: Vec<(String, String)>,
}

impl Default for PtyConfig {
    /// The detected shell, the current directory, 80 columns by 24 rows, no
    /// extra variables.
    fn default() -> (c: PtyConfig)
        ensures
            c.shell is None,
            c.working_directory is None,
            c.cols == 80,
            c.rows == 24,
            c.env@.len() == 0,
    {
        PtyConfig { shell: None, working_directory: None, cols: 80, rows: 24, env: Vec::new() }
    }
}

} // verus!

//! Shell integration (OSC 133 / 633): command zones and the events that
//! drive them.
pub mod zone;
pub mod event;
pub mod handler;
pub mod extractor;
pub mod inject;
pub mod json_types;
pub mod scanner;
pub mod block;

pub use event::ShellEvent;
pub use handler::ShellIntegrationHandler;
pub use json_types::{BlockMetadata, CommandMetadata, CommandResult, JsonDataType, OutputMetadata};
pub use inject::{
    get_integration_script, get_shell_args_with_integration, integration_script_file_name, supports_integration,
    POWERSHELL_INTEGRATION,
};
pub use scanner::{OscScanner, OscSequence, ScanState};
pub use block::{BlockManager, BlockState, CommandBlock, OutputBlock, OutputStream};
pub use extractor::{ContextSummary, LineChars, OutputSummary, TextBuffer, TextExtractor};
pub use zone::{CommandState, CommandZone, ZoneId, ZoneManager};

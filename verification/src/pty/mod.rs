//! The decisions of the loops that move bytes between the terminal and its
//! process: what to do with each read, each message for the writer, and
//! each look at the child process. The loops themselves, which do the
//! reading, writing and waiting, run outside the library.
pub mod event_loop;

pub use event_loop::{PtyMessage, PTY_READ_BUFFER_SIZE};

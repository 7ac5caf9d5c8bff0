//! The terminal grid: cells, lines, screen and terminal state.
pub mod color;

pub use color::Color;
pub mod cell_attrs;
pub use cell_attrs::{CellFlags, Intensity, SemanticType, UnderlineStyle};
pub mod attributes;
pub use attributes::CellAttributes;
pub mod cell;
pub use cell::Cell;
pub mod cluster;
pub use cluster::Cluster;
pub mod clusterline;
pub use clusterline::ClusteredLine;
pub mod storage;
pub use storage::CellStorage;
pub mod linebits;
pub use linebits::LineBits;
pub mod zone_range;
pub use zone_range::ZoneRange;
pub mod stable_row_index;
pub use stable_row_index::{PhysRowIndex, StableRowIndex, VisibleRowIndex};
pub mod cursor;
pub use cursor::{Cursor, CursorShape};
pub mod line;
pub use line::Line;
pub mod screen;
pub use screen::Screen;
pub mod terminal_state;
pub use terminal_state::{ScrollRegion, TerminalModes, TerminalState};

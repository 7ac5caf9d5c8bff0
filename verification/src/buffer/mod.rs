//! A plain character-cell buffer representation.
pub mod cell;

//! Rename audio files from their embedded metadata tags.
//!
//! The library holds the logic of the renamer: the field/tag model, the
//! template compiler, the filename renderer, and the per-entry decisions of
//! the directory walker. Reading tag blocks from disk and performing the
//! actual filesystem renames is left to the surrounding program, which hands
//! plain values in and carries the decisions out.

pub mod fields;
pub mod format;
pub mod outcome;
pub mod render;
pub mod walker;

//! Turns a level-editor export document into a compact, game-ready model:
//! one dense grid per level that merges tile-atlas indices, entities and
//! auxiliary integer values under a single coordinate system.
//!
//! The document is taken already read into [`document::LDtk`]; reading the
//! file format is left to the caller.

pub mod coords;
pub mod design_map;
pub mod document;
pub mod error;
pub mod laws;
pub mod model;
pub mod prelude;
pub mod registry;

pub use coords::{gridpx_to_idx, src_to_atlas_index};

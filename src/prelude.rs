//! The types a game uses to read a compiled document.
pub use crate::design_map::{DesignLevel, DesignMap, TileContents};
pub use crate::document::{
    Defs, EntityInstance, GridTile, LDtk, LayerInstance, Level, Tileset,
};
pub use crate::error::LoadError;

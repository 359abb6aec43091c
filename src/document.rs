//! The part of a level-editor export document that compilation reads.
//!
//! Producing these values from the file format is the loader's business;
//! here they are plain data.
use vstd::prelude::*;

verus! {

/// A whole export document.
#[derive(Debug)]
pub struct LDtk {
    /// Project-wide definitions.
    pub defs: Defs,
    /// The levels, in document order.
    pub levels: Vec<Level>,
}

/// Project-wide definitions of a document.
#[derive(Debug)]
pub struct Defs {
    /// The tilesets that layers refer to by id.
    pub tilesets: Vec<Tileset>,
}

/// One tileset definition: an image cut into cells, referred to by its id.
#[derive(Debug)]
pub struct Tileset {
    /// Human-readable name of the tileset.
    pub identifier: String,
    /// Numeric id that layers use to refer to the tileset.
    pub uid: usize,
}

/// One level of a document.
#[derive(Debug)]
pub struct Level {
    /// Name of the level.
    pub identifier: String,
    /// Horizontal placement of the level in the world, in pixels.
    pub world_x: i64,
    /// Vertical placement of the level in the world, in pixels.
    pub world_y: i64,
    /// The layers of the level.
    pub layer_instances: Vec<LayerInstance>,
}

/// One layer of a level.
#[derive(Debug)]
pub struct LayerInstance {
    /// Name of the layer ("Ground", "Entities", "Values", ...).
    pub identifier: String,
    /// Width of the layer in cells.
    pub width: usize,
    /// Height of the layer in cells.
    pub height: usize,
    /// Size of one cell in pixels.
    pub grid_size: usize,
    /// Id of the tileset the layer draws from, if any.
    pub tileset_def_uid: Option<usize>,
    /// Integer values, one per cell in row-major order.
    pub int_grid_csv: Option<Vec<usize>>,
    /// Tiles placed on the layer.
    pub grid_tiles: Option<Vec<GridTile>>,
    /// Entities placed on the layer.
    pub entity_instances: Option<Vec<EntityInstance>>,
}

/// One tile placed on a tile layer.
#[derive(Debug)]
pub struct GridTile {
    /// Pixel coordinates of the tile in the level.
    pub px: (usize, usize),
    /// Pixel coordinates of the tile in its atlas.
    pub src: (usize, usize),
}

/// One entity placed on an entity layer.
#[derive(Debug)]
pub struct EntityInstance {
    /// Name of the entity's definition.
    pub identifier: String,
    /// Grid position of the entity, as `[x, y]`.
    pub grid: Vec<i64>,
    /// Tags of the entity's definition.
    pub tags: Vec<String>,
}

/// The cell coordinate `i` of an entity's grid position, where the position
/// is a pair and that coordinate is not negative.
pub open spec fn grid_coord(e: EntityInstance, i: int) -> Option<nat> {
    if e.grid@.len() == 2 && e.grid@[i] >= 0 {
        Some(e.grid@[i] as nat)
    } else {
        None
    }
}

impl EntityInstance {
    /// Column of the entity.
    pub fn grid_x(&self) -> (r: usize)
        requires
            self.grid@.len() == 2,
            0 <= self.grid@[0] <= usize::MAX,
        ensures
            r == self.grid@[0],
    {
        self.grid[0] as usize
    }

    /// Row of the entity.
    pub fn grid_y(&self) -> (r: usize)
        requires
            self.grid@.len() == 2,
            0 <= self.grid@[1] <= usize::MAX,
        ensures
            r == self.grid@[1],
    {
        self.grid[1] as usize
    }
}

impl GridTile {
    /// Horizontal pixel position of the tile in the level.
    pub fn grid_x(&self) -> (r: usize)
        ensures
            r == self.px.0,
    {
        self.px.0
    }

    /// Vertical pixel position of the tile in the level.
    pub fn grid_y(&self) -> (r: usize)
        ensures
            r == self.px.1,
    {
        self.px.1
    }

    /// Horizontal pixel position of the tile in its atlas.
    pub fn src_x(&self) -> (r: usize)
        ensures
            r == self.src.0,
    {
        self.src.0
    }

    /// Vertical pixel position of the tile in its atlas.
    pub fn src_y(&self) -> (r: usize)
        ensures
            r == self.src.1,
    {
        self.src.1
    }
}

} // verus!

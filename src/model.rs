//! What compiling a document produces, stated over plain values.
use vstd::prelude::*;
use crate::coords::{atlas_index, grid_index};
use crate::document::{grid_coord, EntityInstance, GridTile, LDtk, LayerInstance, Level};
use crate::error::LoadErrorView;
use crate::registry::registry_of;

verus! {

/// The contents of one grid cell.
pub struct CellView {
    pub atlas_index: nat,
    pub entity_name: Option<Seq<char>>,
    pub entity_tag: Option<Seq<char>>,
    pub value: nat,
}

/// A compiled level.
pub struct LevelView {
    pub name: Seq<char>,
    pub width: nat,
    pub height: nat,
    pub cell_size: nat,
    pub tileset_name: Seq<char>,
    pub world_x: int,
    pub world_y: int,
    pub cells: Seq<CellView>,
}

/// A cell that nothing has been written to.
pub open spec fn blank_cell() -> CellView {
    CellView { atlas_index: 0, entity_name: None, entity_tag: None, value: 0 }
}

/// `n` blank cells.
pub open spec fn blank_cells(n: nat) -> Seq<CellView> {
    Seq::new(n, |i: int| blank_cell())
}

/// A pixel placement of a level divided by 8, rounded toward zero.
pub open spec fn world_tile(px: int) -> int {
    if px >= 0 {
        px / 8
    } else {
        -((-px) / 8)
    }
}

/// Index of the first layer named `name`.
pub open spec fn find_layer(layers: Seq<LayerInstance>, name: Seq<char>) -> Option<int>
    decreases layers.len(),
{
    if layers.len() == 0 {
        None
    } else {
        match find_layer(layers.drop_last(), name) {
            Some(i) => Some(i),
            None => if layers.last().identifier@ == name {
                Some(layers.len() - 1)
            } else {
                None
            },
        }
    }
}

/// An entity name as shown in game: each underscore becomes a space.
pub open spec fn display_name(s: Seq<char>) -> Seq<char> {
    s.map_values(|c: char| if c == '_' { ' ' } else { c })
}

/// The tiles of a layer; none where the list is absent.
pub open spec fn tiles_of(layer: LayerInstance) -> Seq<GridTile> {
    match layer.grid_tiles {
        Some(v) => v@,
        None => Seq::empty(),
    }
}

/// The entities of a layer; none where the list is absent.
pub open spec fn entities_of(layer: LayerInstance) -> Seq<EntityInstance> {
    match layer.entity_instances {
        Some(v) => v@,
        None => Seq::empty(),
    }
}

/// The integer values of a layer; none where the list is absent.
pub open spec fn values_of(layer: LayerInstance) -> Seq<usize> {
    match layer.int_grid_csv {
        Some(v) => v@,
        None => Seq::empty(),
    }
}

/// The cell that a tile's pixel position falls in, where it lies inside a
/// `width` by `height` grid of `cell_size` pixel cells and its atlas index
/// fits a `usize`.
pub open spec fn tile_cell(t: GridTile, width: nat, height: nat, cell_size: nat) -> Option<int> {
    if cell_size == 0 {
        None
    } else {
        let x = t.px.0 as nat / cell_size;
        let y = t.px.1 as nat / cell_size;
        if x < width && y < height && atlas_index(t.src.0 as nat, t.src.1 as nat, cell_size)
            <= usize::MAX {
            Some(grid_index(x as int, y as int, width as int))
        } else {
            None
        }
    }
}

/// Writes the atlas index of each tile into its cell, in order; `None` at
/// the first tile that has no cell.
pub open spec fn place_tiles(
    cells: Seq<CellView>,
    tiles: Seq<GridTile>,
    width: nat,
    height: nat,
    cell_size: nat,
) -> Option<Seq<CellView>>
    decreases tiles.len(),
{
    if tiles.len() == 0 {
        Some(cells)
    } else {
        match place_tiles(cells, tiles.drop_last(), width, height, cell_size) {
            None => None,
            Some(c) => {
                let t = tiles.last();
                match tile_cell(t, width, height, cell_size) {
                    None => None,
                    Some(k) => Some(
                        c.update(
                            k,
                            CellView {
                                atlas_index: atlas_index(t.src.0 as nat, t.src.1 as nat, cell_size),
                                ..c[k]
                            },
                        ),
                    ),
                }
            },
        }
    }
}

/// The cell of an entity's grid position, where it lies inside a `width` by
/// `height` grid.
pub open spec fn entity_cell(e: EntityInstance, width: nat, height: nat) -> Option<int> {
    match (grid_coord(e, 0), grid_coord(e, 1)) {
        (Some(x), Some(y)) => if x < width && y < height {
            Some(grid_index(x as int, y as int, width as int))
        } else {
            None
        },
        _ => None,
    }
}

/// Writes the display name and the first tag (none where the entity has no
/// tags) of each entity into its cell, in order; the first entity that has no
/// cell is the error.
pub open spec fn place_entities(
    cells: Seq<CellView>,
    entities: Seq<EntityInstance>,
    width: nat,
    height: nat,
) -> Result<Seq<CellView>, EntityInstance>
    decreases entities.len(),
{
    if entities.len() == 0 {
        Ok(cells)
    } else {
        match place_entities(cells, entities.drop_last(), width, height) {
            Err(e) => Err(e),
            Ok(c) => {
                let e = entities.last();
                match entity_cell(e, width, height) {
                    None => Err(e),
                    Some(k) => Ok(
                        c.update(
                            k,
                            CellView {
                                entity_name: Some(display_name(e.identifier@)),
                                entity_tag: if e.tags@.len() > 0 {
                                    Some(e.tags@[0]@)
                                } else {
                                    None
                                },
                                ..c[k]
                            },
                        ),
                    ),
                }
            },
        }
    }
}

/// Writes `values[i]` into cell `i`; `None` where there are more values than
/// cells.
pub open spec fn place_values(cells: Seq<CellView>, values: Seq<usize>) -> Option<Seq<CellView>> {
    if values.len() > cells.len() {
        None
    } else {
        Some(
            Seq::new(
                cells.len(),
                |i: int|
                    if i < values.len() {
                        CellView { value: values[i] as nat, ..cells[i] }
                    } else {
                        cells[i]
                    },
            ),
        )
    }
}

/// The entity pass of a level: nothing where it has no "Entities" layer.
pub open spec fn entity_pass(
    level: Level,
    cells: Seq<CellView>,
    width: nat,
    height: nat,
) -> Result<Seq<CellView>, LoadErrorView> {
    match find_layer(level.layer_instances@, "Entities"@) {
        None => Ok(cells),
        Some(i) => match place_entities(
            cells,
            entities_of(level.layer_instances@[i]),
            width,
            height,
        ) {
            Ok(c) => Ok(c),
            Err(e) => Err(LoadErrorView::InvalidPosition(level.identifier@, e.identifier@)),
        },
    }
}

/// The value pass of a level: nothing where it has no "Values" layer.
pub open spec fn value_pass(level: Level, cells: Seq<CellView>) -> Result<Seq<CellView>, LoadErrorView> {
    match find_layer(level.layer_instances@, "Values"@) {
        None => Ok(cells),
        Some(i) => match place_values(cells, values_of(level.layer_instances@[i])) {
            Some(c) => Ok(c),
            None => Err(LoadErrorView::InvalidPosition(level.identifier@, "Values"@)),
        },
    }
}

/// The compiled form of one level, given the tileset registry.
pub open spec fn compile_level(level: Level, registry: Map<usize, Seq<char>>) -> Result<
    LevelView,
    LoadErrorView,
> {
    let name = level.identifier@;
    match find_layer(level.layer_instances@, "Ground"@) {
        None => Err(LoadErrorView::MissingRequiredLayer(name)),
        Some(gi) => {
            let g = level.layer_instances@[gi];
            let (w, h, cs) = (g.width as nat, g.height as nat, g.grid_size as nat);
            if w * h > usize::MAX {
                Err(LoadErrorView::GridTooLarge(name))
            } else if !(g.tileset_def_uid matches Some(id) && registry.contains_key(id)) {
                Err(LoadErrorView::UnknownTileset(name, g.tileset_def_uid))
            } else if cs == 0 {
                Err(LoadErrorView::ZeroCellSize(name))
            } else {
                match place_tiles(blank_cells(w * h), tiles_of(g), w, h, cs) {
                    None => Err(LoadErrorView::InvalidPosition(name, "Ground"@)),
                    Some(c1) => match entity_pass(level, c1, w, h) {
                        Err(e) => Err(e),
                        Ok(c2) => match value_pass(level, c2) {
                            Err(e) => Err(e),
                            Ok(c3) => Ok(
                                LevelView {
                                    name,
                                    width: w,
                                    height: h,
                                    cell_size: cs,
                                    tileset_name: registry[g.tileset_def_uid.unwrap()],
                                    world_x: world_tile(level.world_x as int),
                                    world_y: world_tile(level.world_y as int),
                                    cells: c3,
                                },
                            ),
                        },
                    },
                }
            }
        },
    }
}

/// Whether some level of `levels` is named `name`.
pub open spec fn has_level_named(levels: Seq<LevelView>, name: Seq<char>) -> bool {
    exists|i: int| 0 <= i < levels.len() && #[trigger] levels[i].name == name
}

/// Compiles the levels in order, stopping at the first failure; a level
/// whose name an earlier level has is a failure.
pub open spec fn compile_levels(levels: Seq<Level>, registry: Map<usize, Seq<char>>) -> Result<
    Seq<LevelView>,
    LoadErrorView,
>
    decreases levels.len(),
{
    if levels.len() == 0 {
        Ok(Seq::empty())
    } else {
        match compile_levels(levels.drop_last(), registry) {
            Err(e) => Err(e),
            Ok(done) => match compile_level(levels.last(), registry) {
                Err(e) => Err(e),
                Ok(l) => if has_level_named(done, l.name) {
                    Err(LoadErrorView::DuplicateLevelName(l.name))
                } else {
                    Ok(done.push(l))
                },
            },
        }
    }
}

/// The compiled form of a whole document.
pub open spec fn compile_document(world: LDtk) -> Result<Seq<LevelView>, LoadErrorView> {
    compile_levels(world.levels@, registry_of(world.defs.tilesets@))
}

/// Once a prefix of the layers holds a layer of that name, the first one
/// found in the whole run is the one found in the prefix.
pub proof fn lemma_find_layer_prefix(layers: Seq<LayerInstance>, k: int, name: Seq<char>)
    requires
        0 <= k <= layers.len(),
        find_layer(layers.take(k), name) is Some,
    ensures
        find_layer(layers, name) == find_layer(layers.take(k), name),
    decreases layers.len() - k,
{
    if k < layers.len() {
        assert(layers.take(k + 1).drop_last() =~= layers.take(k));
        lemma_find_layer_prefix(layers, k + 1, name);
    } else {
        assert(layers.take(k) =~= layers);
    }
}

/// A tile that has no cell makes the whole tile pass fail.
pub proof fn lemma_place_tiles_failure_stays(
    cells: Seq<CellView>,
    tiles: Seq<GridTile>,
    k: int,
    width: nat,
    height: nat,
    cell_size: nat,
)
    requires
        0 <= k <= tiles.len(),
        place_tiles(cells, tiles.take(k), width, height, cell_size) is None,
    ensures
        place_tiles(cells, tiles, width, height, cell_size) is None,
    decreases tiles.len() - k,
{
    if k < tiles.len() {
        assert(tiles.take(k + 1).drop_last() =~= tiles.take(k));
        lemma_place_tiles_failure_stays(cells, tiles, k + 1, width, height, cell_size);
    } else {
        assert(tiles.take(k) =~= tiles);
    }
}

/// The first entity that has no cell is the failure of the whole pass.
pub proof fn lemma_place_entities_failure_stays(
    cells: Seq<CellView>,
    entities: Seq<EntityInstance>,
    k: int,
    width: nat,
    height: nat,
)
    requires
        0 <= k <= entities.len(),
        place_entities(cells, entities.take(k), width, height) is Err,
    ensures
        place_entities(cells, entities, width, height) == place_entities(
            cells,
            entities.take(k),
            width,
            height,
        ),
    decreases entities.len() - k,
{
    if k < entities.len() {
        assert(entities.take(k + 1).drop_last() =~= entities.take(k));
        lemma_place_entities_failure_stays(cells, entities, k + 1, width, height);
    } else {
        assert(entities.take(k) =~= entities);
    }
}

/// The first level that fails is the failure of the whole document.
pub proof fn lemma_compile_levels_failure_stays(
    levels: Seq<Level>,
    k: int,
    registry: Map<usize, Seq<char>>,
)
    requires
        0 <= k <= levels.len(),
        compile_levels(levels.take(k), registry) is Err,
    ensures
        compile_levels(levels, registry) == compile_levels(levels.take(k), registry),
    decreases levels.len() - k,
{
    if k < levels.len() {
        assert(levels.take(k + 1).drop_last() =~= levels.take(k));
        lemma_compile_levels_failure_stays(levels, k + 1, registry);
    } else {
        assert(levels.take(k) =~= levels);
    }
}

} // verus!

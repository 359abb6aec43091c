//! The compiled, game-ready model and the compiler that builds it.
use std::collections::HashMap;
use vstd::prelude::*;
use crate::coords::{gridpx_to_idx, src_to_atlas_index};
use crate::document::{EntityInstance, GridTile, LDtk, Level, LayerInstance};
use crate::error::{LoadError, LoadErrorView};
use crate::model::{
    blank_cell, blank_cells, display_name, entity_cell, find_layer, lemma_find_layer_prefix,
    lemma_place_entities_failure_stays, lemma_place_tiles_failure_stays, place_entities,
    place_tiles, place_values, tile_cell, compile_level, compile_document, compile_levels,
    has_level_named, lemma_compile_levels_failure_stays, world_tile, CellView, LevelView,
};
use crate::registry::{holds_registry, registry_of, tilesets};

verus! {

broadcast use vstd::std_specs::hash::group_hash_axioms;

/// The view of an optional string.
pub open spec fn opt_str_view(o: Option<String>) -> Option<Seq<char>> {
    match o {
        Some(s) => Some(s@),
        None => None,
    }
}

/// The views of a run of cells.
pub open spec fn cells_view(cells: Seq<TileContents>) -> Seq<CellView> {
    cells.map_values(|c: TileContents| c@)
}

/// The views of a run of levels.
pub open spec fn levels_view(levels: Seq<DesignLevel>) -> Seq<LevelView> {
    levels.map_values(|l: DesignLevel| l@)
}

/// A result with its value and its error seen through their views.
pub open spec fn outcome<T: View>(r: Result<T, LoadError>) -> Result<T::V, LoadErrorView> {
    match r {
        Ok(v) => Ok(v@),
        Err(e) => Err(e@),
    }
}

/// The contents of one cell of a compiled level.
#[derive(Clone, Debug)]
pub struct TileContents {
    atlas_index: usize,
    entity_name: Option<String>,
    entity_tag: Option<String>,
    value: usize,
}

impl View for TileContents {
    type V = CellView;

    closed spec fn view(&self) -> CellView {
        CellView {
            atlas_index: self.atlas_index as nat,
            entity_name: opt_str_view(self.entity_name),
            entity_tag: opt_str_view(self.entity_tag),
            value: self.value as nat,
        }
    }
}

impl Default for TileContents {
    fn default() -> (r: TileContents)
        ensures
            r@ == blank_cell(),
    {
        TileContents { atlas_index: 0, entity_name: None, entity_tag: None, value: 0 }
    }
}

impl TileContents {
    /// The index in the tile atlas of this cell's sprite.
    pub fn atlas_index(&self) -> (r: usize)
        ensures
            r == self@.atlas_index,
    {
        self.atlas_index
    }

    /// The auxiliary value of the cell (walkability, collision, ...).
    pub fn value(&self) -> (r: usize)
        ensures
            r == self@.value,
    {
        self.value
    }

    /// The name of the entity in the cell, if any.
    pub fn entity_name(&self) -> (r: Option<&str>)
        ensures
            (match r {
                Some(s) => Some(s@),
                None => None,
            }) == self@.entity_name,
    {
        match &self.entity_name {
            Some(s) => Some(s.as_str()),
            None => None,
        }
    }

    /// The first tag of the entity in the cell, if any.
    pub fn entity_tag(&self) -> (r: Option<&str>)
        ensures
            (match r {
                Some(s) => Some(s@),
                None => None,
            }) == self@.entity_tag,
    {
        match &self.entity_tag {
            Some(s) => Some(s.as_str()),
            None => None,
        }
    }
}

/// One compiled level: a dense row-major grid of cells and what was read
/// alongside it.
#[derive(Debug)]
pub struct DesignLevel {
    level: Vec<TileContents>,
    level_name: String,
    width: usize,
    height: usize,
    grid_size_px: usize,
    tileset_name: String,
    world_x: i64,
    world_y: i64,
}

impl View for DesignLevel {
    type V = LevelView;

    closed spec fn view(&self) -> LevelView {
        LevelView {
            name: self.level_name@,
            width: self.width as nat,
            height: self.height as nat,
            cell_size: self.grid_size_px as nat,
            tileset_name: self.tileset_name@,
            world_x: self.world_x as int,
            world_y: self.world_y as int,
            cells: cells_view(self.level@),
        }
    }
}

impl DesignLevel {
    /// The grid holds one cell for each position.
    #[verifier::type_invariant]
    spec fn dense(self) -> bool {
        self.level@.len() == self.width * self.height
    }

    /// Horizontal placement of the level in the world, in 8-pixel tiles.
    pub fn world_tile_x(&self) -> (r: i64)
        ensures
            r == self@.world_x,
    {
        self.world_x
    }

    /// Vertical placement of the level in the world, in 8-pixel tiles.
    pub fn world_tile_y(&self) -> (r: i64)
        ensures
            r == self@.world_y,
    {
        self.world_y
    }

    /// Placement of the level in the world, in 8-pixel tiles.
    pub fn world_xy(&self) -> (r: (i64, i64))
        ensures
            r.0 == self@.world_x,
            r.1 == self@.world_y,
    {
        (self.world_x, self.world_y)
    }

    /// The cells of the level, row by row; cell `i` is at
    /// `(i % width, i / width)`.
    pub fn level(&self) -> (r: &[TileContents])
        ensures
            cells_view(r@) == self@.cells,
            r@.len() == self@.width * self@.height,
    {
        proof {
            use_type_invariant(self);
        }
        self.level.as_slice()
    }

    /// The name of the level.
    pub fn name(&self) -> (r: &str)
        ensures
            r@ == self@.name,
    {
        self.level_name.as_str()
    }

    /// Width of the level in cells, as its "Ground" layer gives it.
    pub fn width(&self) -> (r: usize)
        ensures
            r == self@.width,
    {
        self.width
    }

    /// Height of the level in cells, as its "Ground" layer gives it.
    pub fn height(&self) -> (r: usize)
        ensures
            r == self@.height,
    {
        self.height
    }

    /// Size of one cell in pixels.
    pub fn grid_size_px(&self) -> (r: usize)
        ensures
            r == self@.cell_size,
    {
        self.grid_size_px
    }

    /// Name of the tileset the level is drawn from.
    pub fn tileset_name(&self) -> (r: &str)
        ensures
            r@ == self@.tileset_name,
    {
        self.tileset_name.as_str()
    }
}

/// The compiled document: its levels, each under a name no other level has.
#[derive(Debug)]
pub struct DesignMap {
    levels: Vec<DesignLevel>,
    tilesets: HashMap<usize, String>,
}

/// No two levels of `levels` share a name.
pub open spec fn names_unique(levels: Seq<LevelView>) -> bool {
    forall|a: int, b: int|
        0 <= a < b < levels.len() ==> #[trigger] levels[a].name != #[trigger] levels[b].name
}

impl View for DesignMap {
    type V = Seq<LevelView>;

    closed spec fn view(&self) -> Seq<LevelView> {
        levels_view(self.levels@)
    }
}

/// Relies on `str::replace` with a `char` pattern: every `'_'` of `s` is
/// replaced by `" "` and every other character is copied as it is.
#[verifier::external_body]
fn underscores_to_spaces(s: &str) -> (r: String)
    ensures
        r@ == display_name(s@),
{
    s.replace('_', " ")
}

/// Index of the first layer named `name`.
fn find_layer_index(layers: &Vec<LayerInstance>, name: &String) -> (r: Option<usize>)
    ensures
        match r {
            Some(i) => find_layer(layers@, name@) == Some(i as int) && i < layers@.len(),
            None => find_layer(layers@, name@) is None,
        },
{
    let mut i: usize = 0;
    while i < layers.len()
        invariant
            i <= layers@.len(),
            find_layer(layers@.take(i as int), name@) is None,
        decreases layers@.len() - i,
    {
        assert(layers@.take(i + 1).drop_last() =~= layers@.take(i as int));
        if layers[i].identifier == *name {
            proof {
                lemma_find_layer_prefix(layers@, i + 1, name@);
            }
            return Some(i);
        }
        i = i + 1;
    }
    assert(layers@.take(i as int) =~= layers@);
    None
}

/// `n` blank cells.
fn blank_grid(n: usize) -> (r: Vec<TileContents>)
    ensures
        r@.len() == n,
        cells_view(r@) == blank_cells(n as nat),
{
    let mut cells: Vec<TileContents> = Vec::new();
    let mut i: usize = 0;
    while i < n
        invariant
            i <= n,
            cells@.len() == i,
            forall|j: int| 0 <= j < i ==> #[trigger] cells@[j]@ == blank_cell(),
        decreases n - i,
    {
        cells.push(TileContents::default());
        i = i + 1;
    }
    assert(cells_view(cells@) =~= blank_cells(n as nat));
    cells
}

/// The tile pass: writes the atlas index of each tile into its cell.
/// Returns `false`, leaving the cells in no stated state, where a tile has
/// no cell.
fn place_tile_atlas(
    cells: &mut Vec<TileContents>,
    tiles: &Vec<GridTile>,
    width: usize,
    height: usize,
    cell_size: usize,
) -> (ok: bool)
    requires
        old(cells)@.len() == width * height,
        width * height <= usize::MAX,
    ensures
        final(cells)@.len() == old(cells)@.len(),
        match place_tiles(
            cells_view(old(cells)@),
            tiles@,
            width as nat,
            height as nat,
            cell_size as nat,
        ) {
            Some(c) => ok && c == cells_view(final(cells)@),
            None => !ok,
        },
{
    let ghost start = cells_view(cells@);
    let ghost (w, h, cs) = (width as nat, height as nat, cell_size as nat);
    let mut i: usize = 0;
    while i < tiles.len()
        invariant
            i <= tiles@.len(),
            cells@.len() == width * height,
            old(cells)@.len() == width * height,
            width * height <= usize::MAX,
            start == cells_view(old(cells)@),
            w == width && h == height && cs == cell_size,
            place_tiles(start, tiles@.take(i as int), w, h, cs) == Some(cells_view(cells@)),
        decreases tiles@.len() - i,
    {
        assert(tiles@.take(i + 1).drop_last() =~= tiles@.take(i as int));
        assert(tiles@.take(i + 1).last() == tiles@[i as int]);
        let t = &tiles[i];
        if cell_size == 0 {
            proof {
                lemma_place_tiles_failure_stays(start, tiles@, i + 1, w, h, cs);
            }
            return false;
        }
        let x = t.grid_x() / cell_size;
        let y = t.grid_y() / cell_size;
        let ax = t.src_x() / cell_size;
        let ay = t.src_y() / cell_size;
        if x >= width || y >= height || ay > (usize::MAX - ax) / 16 {
            proof {
                if !(x >= width || y >= height) {
                    assert(ay * 16 + ax > usize::MAX) by (nonlinear_arith)
                        requires
                            ay > (usize::MAX - ax) / 16,
                            ax <= usize::MAX,
                    ;
                }
                assert(tile_cell(tiles@[i as int], w, h, cs) is None);
                lemma_place_tiles_failure_stays(start, tiles@, i + 1, w, h, cs);
            }
            return false;
        }
        assert(ay * 16 + ax <= usize::MAX) by (nonlinear_arith)
            requires
                ay <= (usize::MAX - ax) / 16,
                ax <= usize::MAX,
        ;
        assert(width * y + x < width * height) by (nonlinear_arith)
            requires
                x < width,
                y < height,
        ;
        let a = src_to_atlas_index((t.src_x(), t.src_y()), cell_size);
        let k = gridpx_to_idx((x, y), width);
        let ghost before = cells_view(cells@);
        cells[k].atlas_index = a;
        assert(cells_view(cells@) =~= before.update(
            k as int,
            CellView { atlas_index: a as nat, ..before[k as int] },
        ));
        i = i + 1;
    }
    assert(tiles@.take(i as int) =~= tiles@);
    true
}

/// The entity pass: writes the display name of each entity, and its first
/// tag (none where it has no tags), into its cell. Returns the index of the first
/// entity that has no cell, leaving the cells in no stated state.
fn place_entity_names(
    cells: &mut Vec<TileContents>,
    entities: &Vec<EntityInstance>,
    width: usize,
    height: usize,
) -> (r: Option<usize>)
    requires
        old(cells)@.len() == width * height,
        width * height <= usize::MAX,
    ensures
        final(cells)@.len() == old(cells)@.len(),
        match place_entities(cells_view(old(cells)@), entities@, width as nat, height as nat) {
            Ok(c) => r is None && c == cells_view(final(cells)@),
            Err(e) => (r matches Some(j) && j < entities@.len() && entities@[j as int] == e),
        },
{
    let ghost start = cells_view(cells@);
    let ghost (w, h) = (width as nat, height as nat);
    let mut i: usize = 0;
    while i < entities.len()
        invariant
            i <= entities@.len(),
            cells@.len() == width * height,
            old(cells)@.len() == width * height,
            width * height <= usize::MAX,
            start == cells_view(old(cells)@),
            w == width && h == height,
            place_entities(start, entities@.take(i as int), w, h) == Ok::<
                Seq<CellView>,
                EntityInstance,
            >(cells_view(cells@)),
        decreases entities@.len() - i,
    {
        assert(entities@.take(i + 1).drop_last() =~= entities@.take(i as int));
        assert(entities@.take(i + 1).last() == entities@[i as int]);
        let e = &entities[i];
        if e.grid.len() != 2 || e.grid[0] < 0 || e.grid[1] < 0 || e.grid[0] as u64 >= width as u64
            || e.grid[1] as u64 >= height as u64 {
            assert(entity_cell(entities@[i as int], w, h) is None);
            proof {
                lemma_place_entities_failure_stays(start, entities@, i + 1, w, h);
            }
            return Some(i);
        }
        let x = e.grid_x();
        let y = e.grid_y();
        assert(width * y + x < width * height) by (nonlinear_arith)
            requires
                x < width,
                y < height,
        ;
        let k = gridpx_to_idx((x, y), width);
        let name = underscores_to_spaces(e.identifier.as_str());
        let ghost before = cells_view(cells@);
        cells[k].entity_name = Some(name);
        if e.tags.len() > 0 {
            cells[k].entity_tag = Some(e.tags[0].clone());
        } else {
            cells[k].entity_tag = None;
        }
        assert(cells_view(cells@) =~= before.update(
            k as int,
            CellView {
                entity_name: Some(display_name(e.identifier@)),
                entity_tag: if e.tags@.len() > 0 {
                    Some(e.tags@[0]@)
                } else {
                    None
                },
                ..before[k as int]
            },
        ));
        i = i + 1;
    }
    assert(entities@.take(i as int) =~= entities@);
    None
}

/// The value pass: writes `values[i]` into cell `i`. Returns `false`,
/// leaving the cells as they were, where there are more values than cells.
fn place_cell_values(cells: &mut Vec<TileContents>, values: &Vec<usize>) -> (ok: bool)
    ensures
        final(cells)@.len() == old(cells)@.len(),
        match place_values(cells_view(old(cells)@), values@) {
            Some(c) => ok && c == cells_view(final(cells)@),
            None => !ok,
        },
{
    if values.len() > cells.len() {
        return false;
    }
    let ghost start = cells_view(cells@);
    let mut i: usize = 0;
    while i < values.len()
        invariant
            i <= values@.len() <= cells@.len(),
            cells@.len() == start.len(),
            start == cells_view(old(cells)@),
            forall|j: int|
                0 <= j < i ==> #[trigger] cells@[j]@ == (CellView {
                    value: values@[j] as nat,
                    ..start[j]
                }),
            forall|j: int| i <= j < cells@.len() ==> #[trigger] cells@[j]@ == start[j],
        decreases values@.len() - i,
    {
        assert(cells@[i as int]@ == start[i as int]);
        cells[i].value = values[i];
        assert(cells@[i as int]@ == (CellView { value: values@[i as int] as nat, ..start[i as int] }));
        i = i + 1;
    }
    assert(place_values(start, values@).unwrap() =~= cells_view(cells@));
    true
}

impl DesignMap {
    #[verifier::type_invariant]
    spec fn distinct_names(self) -> bool {
        names_unique(levels_view(self.levels@))
    }

    /// The levels of the world, in document order; no two share a name.
    pub fn levels(&self) -> (r: &[DesignLevel])
        ensures
            levels_view(r@) == self@,
            names_unique(self@),
    {
        proof {
            use_type_invariant(self);
        }
        self.levels.as_slice()
    }

    /// The level named `name`, if there is one.
    pub fn get_level(&self, name: &str) -> (r: Option<&DesignLevel>)
        ensures
            match r {
                Some(l) => l@.name == name@ && self@.contains(l@),
                None => !has_level_named(self@, name@),
            },
    {
        let wanted = String::from_str(name);
        let mut i: usize = 0;
        while i < self.levels.len()
            invariant
                i <= self.levels@.len(),
                wanted@ == name@,
                forall|j: int| 0 <= j < i ==> (#[trigger] self.levels@[j])@.name != name@,
            decreases self.levels@.len() - i,
        {
            if self.levels[i].level_name == wanted {
                assert(self@[i as int] == self.levels@[i as int]@);
                return Some(&self.levels[i]);
            }
            i = i + 1;
        }
        assert forall|j: int| 0 <= j < self@.len() implies #[trigger] self@[j].name != name@ by {
            assert(self@[j] == self.levels@[j]@);
        }
        None
    }

    /// Compiles a whole document: the tileset registry first, then each
    /// level in document order. The first failure rejects the document.
    pub fn load(world: &LDtk) -> (r: Result<DesignMap, LoadError>)
        ensures
            outcome(r) == compile_document(*world),
    {
        let ghost registry = registry_of(world.defs.tilesets@);
        let names = tilesets(world);
        let mut levels: Vec<DesignLevel> = Vec::new();
        assert(levels_view(levels@) =~= Seq::<LevelView>::empty());
        assert(world.levels@.take(0) =~= Seq::<Level>::empty());
        let mut i: usize = 0;
        while i < world.levels.len()
            invariant
                i <= world.levels@.len(),
                holds_registry(names@, registry),
                registry == registry_of(world.defs.tilesets@),
                names_unique(levels_view(levels@)),
                compile_levels(world.levels@.take(i as int), registry) == Ok::<
                    Seq<LevelView>,
                    LoadErrorView,
                >(levels_view(levels@)),
            decreases world.levels@.len() - i,
        {
            assert(world.levels@.take(i + 1).drop_last() =~= world.levels@.take(i as int));
            assert(world.levels@.take(i + 1).last() == world.levels@[i as int]);
            match DesignMap::load_level(&mut levels, &names, &world.levels[i], Ghost(registry)) {
                Err(e) => {
                    proof {
                        lemma_compile_levels_failure_stays(world.levels@, i + 1, registry);
                    }
                    return Err(e);
                },
                Ok(()) => {},
            }
            i = i + 1;
        }
        assert(world.levels@.take(i as int) =~= world.levels@);
        Ok(DesignMap { levels, tilesets: names })
    }

    /// Compiles `level` and adds it to `levels`, unless a level of the same
    /// name is there already.
    fn load_level(
        levels: &mut Vec<DesignLevel>,
        names: &HashMap<usize, String>,
        level: &Level,
        Ghost(registry): Ghost<Map<usize, Seq<char>>>,
    ) -> (r: Result<(), LoadError>)
        requires
            holds_registry(names@, registry),
            names_unique(levels_view(old(levels)@)),
        ensures
            names_unique(levels_view(final(levels)@)),
            r is Err ==> final(levels)@ == old(levels)@,
            match compile_level(*level, registry) {
                Err(e) => (r matches Err(x) && x@ == e),
                Ok(l) => if has_level_named(levels_view(old(levels)@), l.name) {
                    (r matches Err(x) && x@ == LoadErrorView::DuplicateLevelName(l.name))
                } else {
                    r is Ok && levels_view(final(levels)@) == levels_view(old(levels)@).push(l)
                },
            },
    {
        let new_level = match DesignMap::build_level(names, level, Ghost(registry)) {
            Ok(l) => l,
            Err(e) => return Err(e),
        };
        let ghost seen = levels_view(levels@);
        let mut j: usize = 0;
        while j < levels.len()
            invariant
                j <= levels@.len(),
                levels@ == old(levels)@,
                seen == levels_view(levels@),
                names_unique(seen),
                compile_level(*level, registry) == Ok::<LevelView, LoadErrorView>(new_level@),
                forall|t: int| 0 <= t < j ==> (#[trigger] levels@[t])@.name != new_level@.name,
            decreases levels@.len() - j,
        {
            if levels[j].level_name == new_level.level_name {
                assert(seen[j as int] == levels@[j as int]@);
                assert(seen[j as int].name == new_level@.name);
                assert(has_level_named(seen, new_level@.name));
                return Err(LoadError::DuplicateLevelName { level: new_level.level_name });
            }
            j = j + 1;
        }
        assert forall|t: int| 0 <= t < seen.len() implies #[trigger] seen[t].name
            != new_level@.name by {
            assert(seen[t] == levels@[t]@);
        }
        levels.push(new_level);
        assert(levels_view(levels@) =~= seen.push(new_level@));
        Ok(())
    }

    /// The compiled form of `level`, the three layers merged into one grid.
    fn build_level(
        names: &HashMap<usize, String>,
        level: &Level,
        Ghost(registry): Ghost<Map<usize, Seq<char>>>,
    ) -> (r: Result<DesignLevel, LoadError>)
        requires
            holds_registry(names@, registry),
        ensures
            outcome(r) == compile_level(*level, registry),
    {
        let layers = &level.layer_instances;
        let ground_name = String::from_str("Ground");
        let gi = match find_layer_index(layers, &ground_name) {
            Some(gi) => gi,
            None => {
                return Err(LoadError::MissingRequiredLayer { level: level.identifier.clone() });
            },
        };
        let ground = &layers[gi];
        let width = ground.width;
        let height = ground.height;
        let cell_size = ground.grid_size;
        let n = match width.checked_mul(height) {
            Some(n) => n,
            None => {
                return Err(LoadError::GridTooLarge { level: level.identifier.clone() });
            },
        };
        let tileset_name = match ground.tileset_def_uid {
            Some(id) => match names.get(&id) {
                Some(name) => name.clone(),
                None => {
                    return Err(
                        LoadError::UnknownTileset {
                            level: level.identifier.clone(),
                            tileset: Some(id),
                        },
                    );
                },
            },
            None => {
                return Err(
                    LoadError::UnknownTileset { level: level.identifier.clone(), tileset: None },
                );
            },
        };
        if cell_size == 0 {
            return Err(LoadError::ZeroCellSize { level: level.identifier.clone() });
        }
        let mut cells = blank_grid(n);
        if let Some(tiles) = &ground.grid_tiles {
            if !place_tile_atlas(&mut cells, tiles, width, height, cell_size) {
                return Err(
                    LoadError::InvalidPosition {
                        level: level.identifier.clone(),
                        subject: String::from_str("Ground"),
                    },
                );
            }
        }
        let entities_name = String::from_str("Entities");
        if let Some(ei) = find_layer_index(layers, &entities_name) {
            if let Some(entities) = &layers[ei].entity_instances {
                if let Some(j) = place_entity_names(&mut cells, entities, width, height) {
                    return Err(
                        LoadError::InvalidPosition {
                            level: level.identifier.clone(),
                            subject: entities[j].identifier.clone(),
                        },
                    );
                }
            }
        }
        let ghost before_values = cells_view(cells@);
        let values_name = String::from_str("Values");
        if let Some(vi) = find_layer_index(layers, &values_name) {
            if let Some(values) = &layers[vi].int_grid_csv {
                if !place_cell_values(&mut cells, values) {
                    return Err(
                        LoadError::InvalidPosition {
                            level: level.identifier.clone(),
                            subject: String::from_str("Values"),
                        },
                    );
                }
            } else {
                assert(place_values(before_values, Seq::empty()).unwrap() =~= before_values);
            }
        }
        let world_x = level.world_x / 8;
        let world_y = level.world_y / 8;
        assert(world_x == world_tile(level.world_x as int));
        assert(world_y == world_tile(level.world_y as int));
        Ok(
            DesignLevel {
                level: cells,
                level_name: level.identifier.clone(),
                width,
                height,
                grid_size_px: cell_size,
                tileset_name,
                world_x,
                world_y,
            },
        )
    }
}

} // verus!

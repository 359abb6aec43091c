//! Properties of compilation that hold for every document.
use vstd::prelude::*;
use crate::document::{grid_coord, EntityInstance, GridTile, LayerInstance, LDtk, Level};
use crate::error::LoadErrorView;
use crate::model::{
    blank_cells, compile_document, compile_level, compile_levels, display_name, entities_of,
    entity_cell, find_layer, has_level_named, lemma_compile_levels_failure_stays, place_entities,
    place_tiles, place_values, tiles_of, values_of, CellView, LevelView,
};
use crate::registry::registry_of;

verus! {

proof fn lemma_cell_in_grid(x: nat, y: nat, width: nat, height: nat)
    requires
        x < width,
        y < height,
    ensures
        0 <= width * y + x < width * height,
{
    assert(0 <= width * y + x < width * height) by (nonlinear_arith)
        requires
            x < width,
            y < height,
    ;
}

proof fn lemma_tiles_keep_length(
    cells: Seq<CellView>,
    tiles: Seq<GridTile>,
    width: nat,
    height: nat,
    cell_size: nat,
)
    requires
        cells.len() == width * height,
    ensures
        place_tiles(cells, tiles, width, height, cell_size) matches Some(c) ==> c.len()
            == cells.len(),
    decreases tiles.len(),
{
    if tiles.len() > 0 {
        lemma_tiles_keep_length(cells, tiles.drop_last(), width, height, cell_size);
        let t = tiles.last();
        if cell_size > 0 {
            let x = t.px.0 as nat / cell_size;
            let y = t.px.1 as nat / cell_size;
            if x < width && y < height {
                lemma_cell_in_grid(x, y, width, height);
            }
        }
    }
}

proof fn lemma_entities_keep_length(
    cells: Seq<CellView>,
    entities: Seq<EntityInstance>,
    width: nat,
    height: nat,
)
    requires
        cells.len() == width * height,
    ensures
        place_entities(cells, entities, width, height) matches Ok(c) ==> c.len() == cells.len(),
    decreases entities.len(),
{
    if entities.len() > 0 {
        lemma_entities_keep_length(cells, entities.drop_last(), width, height);
        let e = entities.last();
        if let (Some(x), Some(y)) = (grid_coord(e, 0), grid_coord(e, 1)) {
            if x < width && y < height {
                lemma_cell_in_grid(x, y, width, height);
            }
        }
    }
}

/// A compiled level has exactly one cell for each grid position.
pub proof fn lemma_compiled_level_is_dense(level: Level, registry: Map<usize, Seq<char>>)
    ensures
        compile_level(level, registry) matches Ok(l) ==> l.cells.len() == l.width * l.height,
{
    if let Some(gi) = find_layer(level.layer_instances@, "Ground"@) {
        let g = level.layer_instances@[gi];
        let (w, h, cs) = (g.width as nat, g.height as nat, g.grid_size as nat);
        let tiles = tiles_of(g);
        lemma_tiles_keep_length(blank_cells(w * h), tiles, w, h, cs);
        if let Some(c1) = place_tiles(blank_cells(w * h), tiles, w, h, cs) {
            if let Some(ei) = find_layer(level.layer_instances@, "Entities"@) {
                lemma_entities_keep_length(
                    c1,
                    entities_of(level.layer_instances@[ei]),
                    w,
                    h,
                );
            }
        }
    }
}

proof fn lemma_compiled_levels_are_dense(levels: Seq<Level>, registry: Map<usize, Seq<char>>)
    ensures
        compile_levels(levels, registry) matches Ok(done) ==> forall|i: int|
            0 <= i < done.len() ==> #[trigger] done[i].cells.len() == done[i].width
                * done[i].height,
    decreases levels.len(),
{
    if levels.len() > 0 {
        lemma_compiled_levels_are_dense(levels.drop_last(), registry);
        lemma_compiled_level_is_dense(levels.last(), registry);
    }
}

/// Every level of a compiled document has exactly `width * height` cells.
pub proof fn lemma_compiled_document_is_dense(world: LDtk)
    ensures
        compile_document(world) matches Ok(levels) ==> forall|i: int|
            0 <= i < levels.len() ==> #[trigger] levels[i].cells.len() == levels[i].width
                * levels[i].height,
{
    lemma_compiled_levels_are_dense(world.levels@, registry_of(world.defs.tilesets@));
}

/// Where every level compiles, the levels compiled so far carry the names
/// of the levels in order, or a name that two of them share was refused.
proof fn lemma_compile_levels_names(levels: Seq<Level>, registry: Map<usize, Seq<char>>, m: int)
    requires
        0 <= m <= levels.len(),
        forall|k: int| 0 <= k < levels.len() ==> #[trigger] compile_level(levels[k], registry) is Ok,
    ensures
        match compile_levels(levels.take(m), registry) {
            Ok(done) => done.len() == m && forall|k: int|
                0 <= k < m ==> #[trigger] done[k].name == levels[k].identifier@,
            Err(e) => (e matches LoadErrorView::DuplicateLevelName(n) && exists|a: int, b: int|
                0 <= a < b < m && #[trigger] levels[a].identifier@ == n
                    && #[trigger] levels[b].identifier@ == n),
        },
    decreases m,
{
    if m > 0 {
        lemma_compile_levels_names(levels, registry, m - 1);
        assert(levels.take(m).drop_last() =~= levels.take(m - 1));
        assert(levels.take(m).last() == levels[m - 1]);
        assert(compile_level(levels[m - 1], registry) is Ok);
        if let (Ok(done), Ok(l)) = (
            compile_levels(levels.take(m - 1), registry),
            compile_level(levels[m - 1], registry),
        ) {
            if has_level_named(done, l.name) {
                let a = choose|a: int| 0 <= a < done.len() && #[trigger] done[a].name == l.name;
                assert(levels[a].identifier@ == l.name);
                assert(levels[m - 1].identifier@ == l.name);
            }
        }
    } else {
        assert(levels.take(0) =~= Seq::<Level>::empty());
    }
}

/// Where every level of a document compiles on its own and two levels
/// share a name, the document is rejected with `DuplicateLevelName`, naming
/// a name that two of its levels share.
pub proof fn lemma_shared_name_rejected(world: LDtk, i: int, j: int)
    requires
        0 <= i < j < world.levels@.len(),
        world.levels@[i].identifier@ == world.levels@[j].identifier@,
        forall|k: int|
            0 <= k < world.levels@.len() ==> #[trigger] compile_level(
                world.levels@[k],
                registry_of(world.defs.tilesets@),
            ) is Ok,
    ensures
        (compile_document(world) matches Err(LoadErrorView::DuplicateLevelName(n)) && exists|
            a: int,
            b: int,
        |
            0 <= a < b < world.levels@.len() && #[trigger] world.levels@[a].identifier@ == n
                && #[trigger] world.levels@[b].identifier@ == n),
{
    let levels = world.levels@;
    let registry = registry_of(world.defs.tilesets@);
    lemma_compile_levels_names(levels, registry, j);
    lemma_compile_levels_names(levels, registry, j + 1);
    assert(levels.take(j + 1).drop_last() =~= levels.take(j));
    assert(levels.take(j + 1).last() == levels[j]);
    if let Ok(done) = compile_levels(levels.take(j), registry) {
        assert(done[i].name == levels[i].identifier@);
        assert(compile_level(levels[j], registry) is Ok);
        assert(has_level_named(done, levels[j].identifier@));
    }
    lemma_compile_levels_failure_stays(levels, j + 1, registry);
}

proof fn lemma_find_layer_absent(layers: Seq<LayerInstance>, name: Seq<char>)
    requires
        forall|i: int| 0 <= i < layers.len() ==> #[trigger] layers[i].identifier@ != name,
    ensures
        find_layer(layers, name) is None,
    decreases layers.len(),
{
    if layers.len() > 0 {
        lemma_find_layer_absent(layers.drop_last(), name);
    }
}

/// A level without a "Ground" layer is rejected with `MissingRequiredLayer`
/// naming the level.
pub proof fn lemma_missing_ground_rejected(level: Level, registry: Map<usize, Seq<char>>)
    requires
        forall|i: int|
            0 <= i < level.layer_instances@.len() ==> #[trigger] level.layer_instances@[i].identifier@
                != "Ground"@,
    ensures
        compile_level(level, registry) == Err::<LevelView, LoadErrorView>(
            LoadErrorView::MissingRequiredLayer(level.identifier@),
        ),
{
    lemma_find_layer_absent(level.layer_instances@, "Ground"@);
}

/// A document with a level that does not compile is rejected.
pub proof fn lemma_failing_level_rejects_document(world: LDtk, k: int)
    requires
        0 <= k < world.levels@.len(),
        compile_level(world.levels@[k], registry_of(world.defs.tilesets@)) is Err,
    ensures
        compile_document(world) is Err,
{
    let levels = world.levels@;
    let registry = registry_of(world.defs.tilesets@);
    assert(levels.take(k + 1).drop_last() =~= levels.take(k));
    assert(levels.take(k + 1).last() == levels[k]);
    assert(compile_levels(levels.take(k + 1), registry) is Err);
    lemma_compile_levels_failure_stays(levels, k + 1, registry);
}

/// A compiled level takes its size, its cell size and its tileset from the
/// first "Ground" layer of the level: the cell size is positive, and the
/// tileset name is the one the registry holds for that layer's tileset id.
pub proof fn lemma_compiled_level_follows_ground(level: Level, registry: Map<usize, Seq<char>>)
    ensures
        compile_level(level, registry) matches Ok(l) ==> {
            &&& find_layer(level.layer_instances@, "Ground"@) matches Some(gi)
            &&& {
                let g = level.layer_instances@[gi];
                &&& l.name == level.identifier@
                &&& l.width == g.width
                &&& l.height == g.height
                &&& l.cell_size == g.grid_size
                &&& l.cell_size > 0
                &&& g.tileset_def_uid matches Some(id)
                &&& registry.contains_key(id)
                &&& l.tileset_name == registry[id]
            }
        },
{
}

proof fn lemma_compile_levels_each(levels: Seq<Level>, registry: Map<usize, Seq<char>>)
    ensures
        compile_levels(levels, registry) matches Ok(done) ==> done.len() == levels.len()
            && forall|i: int|
            0 <= i < levels.len() ==> compile_level(levels[i], registry) == Ok::<
                LevelView,
                LoadErrorView,
            >(#[trigger] done[i]),
    decreases levels.len(),
{
    if levels.len() > 0 {
        lemma_compile_levels_each(levels.drop_last(), registry);
        if let Ok(done) = compile_levels(levels, registry) {
            assert forall|i: int| 0 <= i < levels.len() implies compile_level(
                levels[i],
                registry,
            ) == Ok::<LevelView, LoadErrorView>(#[trigger] done[i]) by {
                if i < levels.len() - 1 {
                    assert(levels.drop_last()[i] == levels[i]);
                }
            }
        }
    }
}

/// `l` carries the name that `registry` holds for the tileset id of the
/// first "Ground" layer of `level`.
pub open spec fn resolves_ground_tileset(
    level: Level,
    l: LevelView,
    registry: Map<usize, Seq<char>>,
) -> bool {
    &&& find_layer(level.layer_instances@, "Ground"@) matches Some(gi)
    &&& level.layer_instances@[gi].tileset_def_uid matches Some(id)
    &&& registry.contains_key(id)
    &&& l.tileset_name == registry[id]
}

/// Each level of a compiled document carries the name that the document's
/// tileset definitions register for the tileset id of that level's own
/// "Ground" layer.
pub proof fn lemma_levels_resolve_their_own_tileset(world: LDtk)
    ensures
        compile_document(world) matches Ok(levels) ==> levels.len() == world.levels@.len()
            && forall|i: int|
            0 <= i < levels.len() ==> resolves_ground_tileset(
                world.levels@[i],
                #[trigger] levels[i],
                registry_of(world.defs.tilesets@),
            ),
{
    let registry = registry_of(world.defs.tilesets@);
    lemma_compile_levels_each(world.levels@, registry);
    if let Ok(levels) = compile_document(world) {
        assert forall|i: int| 0 <= i < levels.len() implies resolves_ground_tileset(
            world.levels@[i],
            #[trigger] levels[i],
            registry,
        ) by {
            assert(compile_level(world.levels@[i], registry) == Ok::<LevelView, LoadErrorView>(
                levels[i],
            ));
            lemma_compiled_level_follows_ground(world.levels@[i], registry);
        }
    }
}

proof fn lemma_last_entity_on_cell(
    cells: Seq<CellView>,
    entities: Seq<EntityInstance>,
    width: nat,
    height: nat,
    i: int,
    k: int,
)
    requires
        cells.len() == width * height,
        place_entities(cells, entities, width, height) is Ok,
        0 <= i < entities.len(),
        entity_cell(entities[i], width, height) == Some(k),
        forall|j: int| i < j < entities.len() ==> #[trigger] entity_cell(entities[j], width, height)
            != Some(k),
    ensures
        ({
            let c = place_entities(cells, entities, width, height).unwrap();
            &&& 0 <= k < c.len()
            &&& c[k].entity_name == Some(display_name(entities[i].identifier@))
            &&& c[k].entity_tag == if entities[i].tags@.len() > 0 {
                Some(entities[i].tags@[0]@)
            } else {
                None
            }
        }),
    decreases entities.len(),
{
    let rest = entities.drop_last();
    lemma_entities_keep_length(cells, rest, width, height);
    lemma_entities_keep_length(cells, entities, width, height);
    let e = entities.last();
    if let (Some(x), Some(y)) = (grid_coord(e, 0), grid_coord(e, 1)) {
        if x < width && y < height {
            lemma_cell_in_grid(x, y, width, height);
        }
    }
    let ei = entities[i];
    if let (Some(x), Some(y)) = (grid_coord(ei, 0), grid_coord(ei, 1)) {
        if x < width && y < height {
            lemma_cell_in_grid(x, y, width, height);
        }
    }
    if i < entities.len() - 1 {
        assert forall|j: int| i < j < rest.len() implies #[trigger] entity_cell(
            rest[j],
            width,
            height,
        ) != Some(k) by {
            assert(rest[j] == entities[j]);
        }
        assert(rest[i] == entities[i]);
        assert(entity_cell(entities[entities.len() - 1], width, height) != Some(k));
        lemma_last_entity_on_cell(cells, rest, width, height, i, k);
    }
}

/// In a compiled level, the cell of an entity that no later entity of the
/// "Entities" layer lands on shows that entity's name with each underscore
/// replaced by a space, and its first tag (none where it has no tags). The
/// entity's cell is found with the width of the "Ground" layer.
pub proof fn lemma_entity_shows_in_its_cell(
    level: Level,
    registry: Map<usize, Seq<char>>,
    i: int,
    k: int,
)
    requires
        compile_level(level, registry) is Ok,
        find_layer(level.layer_instances@, "Entities"@) is Some,
        ({
            let entities = entities_of(
                level.layer_instances@[find_layer(level.layer_instances@, "Entities"@).unwrap()],
            );
            let g = level.layer_instances@[find_layer(level.layer_instances@, "Ground"@).unwrap()];
            &&& 0 <= i < entities.len()
            &&& entity_cell(entities[i], g.width as nat, g.height as nat) == Some(k)
            &&& forall|j: int|
                i < j < entities.len() ==> #[trigger] entity_cell(
                    entities[j],
                    g.width as nat,
                    g.height as nat,
                ) != Some(k)
        }),
    ensures
        ({
            let l = compile_level(level, registry)->Ok_0;
            let e = entities_of(
                level.layer_instances@[find_layer(level.layer_instances@, "Entities"@).unwrap()],
            )[i];
            &&& 0 <= k < l.cells.len()
            &&& l.cells[k].entity_name == Some(display_name(e.identifier@))
            &&& l.cells[k].entity_tag == if e.tags@.len() > 0 {
                Some(e.tags@[0]@)
            } else {
                None
            }
        }),
{
    let layers = level.layer_instances@;
    let g = layers[find_layer(layers, "Ground"@).unwrap()];
    let (w, h, cs) = (g.width as nat, g.height as nat, g.grid_size as nat);
    let c0 = blank_cells(w * h);
    lemma_tiles_keep_length(c0, tiles_of(g), w, h, cs);
    let c1 = place_tiles(c0, tiles_of(g), w, h, cs).unwrap();
    let entities = entities_of(layers[find_layer(layers, "Entities"@).unwrap()]);
    lemma_last_entity_on_cell(c1, entities, w, h, i, k);
    let c2 = place_entities(c1, entities, w, h).unwrap();
    if let Some(vi) = find_layer(layers, "Values"@) {
        let c3 = place_values(c2, values_of(layers[vi])).unwrap();
        assert(c3[k] == (if k < values_of(layers[vi]).len() {
            CellView { value: values_of(layers[vi])[k] as nat, ..c2[k] }
        } else {
            c2[k]
        }));
    }
}

} // verus!

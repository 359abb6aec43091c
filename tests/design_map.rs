use ldtk_map::prelude::{
    Defs, DesignMap, EntityInstance, GridTile, LDtk, LayerInstance, Level, LoadError, Tileset,
};

fn layer(name: &str, width: usize, height: usize) -> LayerInstance {
    LayerInstance {
        identifier: name.to_string(),
        width,
        height,
        grid_size: 8,
        tileset_def_uid: None,
        int_grid_csv: None,
        grid_tiles: None,
        entity_instances: None,
    }
}

fn ground(width: usize, height: usize, tileset: usize) -> LayerInstance {
    let mut l = layer("Ground", width, height);
    l.tileset_def_uid = Some(tileset);
    l
}

fn entity(name: &str, x: i64, y: i64, tags: &[&str]) -> EntityInstance {
    EntityInstance {
        identifier: name.to_string(),
        grid: vec![x, y],
        tags: tags.iter().map(|t| t.to_string()).collect(),
    }
}

fn level(name: &str, layers: Vec<LayerInstance>) -> Level {
    Level {
        identifier: name.to_string(),
        world_x: 0,
        world_y: 0,
        layer_instances: layers,
    }
}

fn world(tilesets: &[(usize, &str)], levels: Vec<Level>) -> LDtk {
    LDtk {
        defs: Defs {
            tilesets: tilesets
                .iter()
                .map(|(uid, name)| Tileset { identifier: name.to_string(), uid: *uid })
                .collect(),
        },
        levels,
    }
}

fn forest() -> [(usize, &'static str); 1] {
    [(1, "Forest")]
}

#[test]
fn test_load_world_with_different_sized_levels() {
    let doc = world(
        &forest(),
        vec![
            level("Level_0", vec![ground(22, 19, 1)]),
            level("Level_1", vec![ground(12, 17, 1)]),
            level("Level_2", vec![ground(18, 13, 1)]),
        ],
    );
    let world = DesignMap::load(&doc).unwrap();
    assert_eq!(world.get_level("Level_0").unwrap().width(), 22);
    assert_eq!(world.get_level("Level_0").unwrap().height(), 19);

    assert_eq!(world.get_level("Level_1").unwrap().width(), 12);
    assert_eq!(world.get_level("Level_1").unwrap().height(), 17);

    assert_eq!(world.get_level("Level_2").unwrap().width(), 18);
    assert_eq!(world.get_level("Level_2").unwrap().height(), 13);
}

#[test]
fn test_load_world_with_entities() {
    let mut entities = layer("Entities", 40, 20);
    entities.entity_instances =
        Some(vec![entity("Monster1", 0, 0, &[]), entity("Monster1", 3, 0, &[])]);
    let doc = world(&forest(), vec![level("Level_0", vec![ground(40, 20, 1), entities])]);
    let world = DesignMap::load(&doc).unwrap();
    assert_eq!(
        world.get_level("Level_0").unwrap().level()[0].entity_name(),
        Some("Monster1")
    );
    assert_eq!(
        world.get_level("Level_0").unwrap().level()[3].entity_name(),
        Some("Monster1")
    );
}

#[test]
fn test_load_levels_with_different_tilesets() {
    let doc = world(
        &[(1, "Forest"), (7, "SecondTileset")],
        vec![
            level("Level_0", vec![ground(4, 4, 1)]),
            level("Level_1", vec![ground(4, 4, 7)]),
        ],
    );
    let world = DesignMap::load(&doc).unwrap();
    assert_eq!(world.get_level("Level_0").unwrap().tileset_name(), "Forest");
    assert_eq!(world.get_level("Level_1").unwrap().tileset_name(), "SecondTileset");
}

#[test]
fn test_duplicate_level_name() {
    let doc = world(
        &forest(),
        vec![
            level("A", vec![ground(2, 2, 1)]),
            level("B", vec![ground(2, 2, 1)]),
            level("A", vec![ground(3, 3, 1)]),
        ],
    );
    match DesignMap::load(&doc) {
        Err(LoadError::DuplicateLevelName { level }) => assert_eq!(level, "A"),
        _ => panic!("a second level named A must be refused"),
    }
}

#[test]
fn entity_names_have_underscores_replaced() {
    let mut entities = layer("Entities", 40, 20);
    entities.entity_instances = Some(vec![
        entity("Monster_One", 0, 0, &["enemy", "boss"]),
        entity("Monster_One", 3, 0, &[]),
    ]);
    let doc = world(&forest(), vec![level("Level_0", vec![ground(40, 20, 1), entities])]);
    let world = DesignMap::load(&doc).unwrap();
    let cells = world.get_level("Level_0").unwrap().level();
    assert_eq!(cells[0].entity_name(), Some("Monster One"));
    assert_eq!(cells[0].entity_tag(), Some("enemy"));
    assert_eq!(cells[3].entity_name(), Some("Monster One"));
    assert_eq!(cells[3].entity_tag(), None);
    assert_eq!(cells[1].entity_name(), None);
}

#[test]
fn entities_use_the_ground_width() {
    let mut entities = layer("Entities", 5, 5);
    entities.entity_instances = Some(vec![entity("Chest", 1, 2, &[])]);
    let doc = world(&forest(), vec![level("L", vec![ground(10, 4, 1), entities])]);
    let world = DesignMap::load(&doc).unwrap();
    let cells = world.get_level("L").unwrap().level();
    assert_eq!(cells[21].entity_name(), Some("Chest"));
}

#[test]
fn cells_cover_the_grid() {
    let doc = world(&forest(), vec![level("L", vec![ground(7, 3, 1)])]);
    let world = DesignMap::load(&doc).unwrap();
    let l = world.get_level("L").unwrap();
    assert_eq!(l.level().len(), l.width() * l.height());
    assert_eq!(l.level().len(), 21);
    assert!(l.level().iter().all(|c| c.atlas_index() == 0
        && c.value() == 0
        && c.entity_name().is_none()
        && c.entity_tag().is_none()));
}

#[test]
fn missing_ground_layer_is_refused() {
    let doc = world(&forest(), vec![level("Cave", vec![layer("Entities", 4, 4)])]);
    match DesignMap::load(&doc) {
        Err(LoadError::MissingRequiredLayer { level }) => assert_eq!(level, "Cave"),
        _ => panic!("a level without Ground must be refused"),
    }
}

#[test]
fn unknown_tileset_is_refused() {
    let doc = world(&forest(), vec![level("L", vec![ground(4, 4, 9)])]);
    match DesignMap::load(&doc) {
        Err(LoadError::UnknownTileset { level, tileset }) => {
            assert_eq!(level, "L");
            assert_eq!(tileset, Some(9));
        }
        _ => panic!("an unknown tileset must be refused"),
    }
    let doc = world(&forest(), vec![level("L", vec![layer("Ground", 4, 4)])]);
    match DesignMap::load(&doc) {
        Err(LoadError::UnknownTileset { level, tileset }) => {
            assert_eq!(level, "L");
            assert_eq!(tileset, None);
        }
        _ => panic!("a Ground layer without a tileset must be refused"),
    }
}

#[test]
fn negative_entity_position_is_refused() {
    let mut entities = layer("Entities", 4, 4);
    entities.entity_instances = Some(vec![entity("Ghost", -1, 0, &[])]);
    let doc = world(&forest(), vec![level("L", vec![ground(4, 4, 1), entities])]);
    match DesignMap::load(&doc) {
        Err(LoadError::InvalidPosition { level, subject }) => {
            assert_eq!(level, "L");
            assert_eq!(subject, "Ghost");
        }
        _ => panic!("a negative position must be refused"),
    }
}

#[test]
fn entity_outside_the_grid_is_refused() {
    let mut entities = layer("Entities", 4, 4);
    entities.entity_instances = Some(vec![
        entity("Fine", 3, 3, &[]),
        entity("Far", 0, 4, &[]),
    ]);
    let doc = world(&forest(), vec![level("L", vec![ground(4, 4, 1), entities])]);
    match DesignMap::load(&doc) {
        Err(LoadError::InvalidPosition { subject, .. }) => assert_eq!(subject, "Far"),
        _ => panic!("a position below the grid must be refused"),
    }
    let mut entities = layer("Entities", 4, 4);
    entities.entity_instances = Some(vec![EntityInstance {
        identifier: "Odd".to_string(),
        grid: vec![1],
        tags: vec![],
    }]);
    let doc = world(&forest(), vec![level("L", vec![ground(4, 4, 1), entities])]);
    match DesignMap::load(&doc) {
        Err(LoadError::InvalidPosition { subject, .. }) => assert_eq!(subject, "Odd"),
        _ => panic!("a position that is not a pair must be refused"),
    }
}

#[test]
fn tiles_write_atlas_indices_and_later_tiles_win() {
    let mut g = ground(10, 10, 1);
    g.grid_size = 16;
    g.grid_tiles = Some(vec![
        GridTile { px: (32, 16), src: (64, 0) },
        GridTile { px: (0, 0), src: (16, 32) },
        GridTile { px: (32, 16), src: (48, 16) },
    ]);
    let doc = world(&forest(), vec![level("L", vec![g])]);
    let world = DesignMap::load(&doc).unwrap();
    let l = world.get_level("L").unwrap();
    assert_eq!(l.grid_size_px(), 16);
    assert_eq!(l.level()[0].atlas_index(), 33);
    assert_eq!(l.level()[12].atlas_index(), 19);
}

#[test]
fn tile_outside_the_grid_is_refused() {
    let mut g = ground(2, 2, 1);
    g.grid_tiles = Some(vec![GridTile { px: (16, 0), src: (0, 0) }]);
    let doc = world(&forest(), vec![level("L", vec![g])]);
    match DesignMap::load(&doc) {
        Err(LoadError::InvalidPosition { level, subject }) => {
            assert_eq!(level, "L");
            assert_eq!(subject, "Ground");
        }
        _ => panic!("a tile outside the grid must be refused"),
    }
}

#[test]
fn values_fill_cells_in_order() {
    let mut values = layer("Values", 3, 2);
    values.int_grid_csv = Some(vec![1, 0, 2, 3]);
    let doc = world(&forest(), vec![level("L", vec![ground(3, 2, 1), values])]);
    let world = DesignMap::load(&doc).unwrap();
    let cells = world.get_level("L").unwrap().level();
    let got: Vec<usize> = cells.iter().map(|c| c.value()).collect();
    assert_eq!(got, vec![1, 0, 2, 3, 0, 0]);
}

#[test]
fn too_many_values_are_refused() {
    let mut values = layer("Values", 2, 1);
    values.int_grid_csv = Some(vec![1, 1, 1]);
    let doc = world(&forest(), vec![level("L", vec![ground(2, 1, 1), values])]);
    match DesignMap::load(&doc) {
        Err(LoadError::InvalidPosition { subject, .. }) => assert_eq!(subject, "Values"),
        _ => panic!("more values than cells must be refused"),
    }
}

#[test]
fn oversized_grid_is_refused() {
    let doc = world(&forest(), vec![level("Huge", vec![ground(usize::MAX, 2, 1)])]);
    match DesignMap::load(&doc) {
        Err(LoadError::GridTooLarge { level }) => assert_eq!(level, "Huge"),
        _ => panic!("a grid that cannot be counted must be refused"),
    }
}

#[test]
fn empty_document_compiles_to_empty_map() {
    let doc = world(&[], vec![]);
    let world = DesignMap::load(&doc).unwrap();
    assert!(world.levels().is_empty());
    assert!(world.get_level("Level_0").is_none());
}

#[test]
fn world_position_is_in_eight_pixel_tiles() {
    let mut l = level("L", vec![ground(1, 1, 1)]);
    l.world_x = 80;
    l.world_y = -20;
    let doc = world(&forest(), vec![l]);
    let world = DesignMap::load(&doc).unwrap();
    let l = world.get_level("L").unwrap();
    assert_eq!(l.world_tile_x(), 10);
    assert_eq!(l.world_tile_y(), -2);
    assert_eq!(l.world_xy(), (10, -2));
    assert_eq!(l.name(), "L");
}

#[test]
fn first_ground_layer_is_used_and_last_tileset_definition_wins() {
    let doc = world(
        &[(1, "Old"), (1, "New")],
        vec![level("L", vec![ground(2, 3, 1), ground(5, 5, 1)])],
    );
    let world = DesignMap::load(&doc).unwrap();
    let l = world.get_level("L").unwrap();
    assert_eq!((l.width(), l.height()), (2, 3));
    assert_eq!(l.tileset_name(), "New");
    assert_eq!(world.levels().len(), 1);
}

#[test]
fn error_messages_name_the_level() {
    let e = LoadError::MissingRequiredLayer { level: "Cave".to_string() };
    assert!(e.message().ends_with("Cave"));
}

#[test]
fn untagged_entity_clears_an_earlier_tag() {
    let mut entities = layer("Entities", 1, 1);
    entities.entity_instances = Some(vec![entity("A", 0, 0, &["t"]), entity("B", 0, 0, &[])]);
    let doc = world(&forest(), vec![level("L", vec![ground(1, 1, 1), entities])]);
    let world = DesignMap::load(&doc).unwrap();
    let cells = world.get_level("L").unwrap().level();
    assert_eq!(cells[0].entity_name(), Some("B"));
    assert_eq!(cells[0].entity_tag(), None);
}

#[test]
fn zero_cell_size_is_refused() {
    let mut g = ground(3, 3, 1);
    g.grid_size = 0;
    let doc = world(&forest(), vec![level("Flat", vec![g])]);
    match DesignMap::load(&doc) {
        Err(LoadError::ZeroCellSize { level }) => assert_eq!(level, "Flat"),
        _ => panic!("a cell size of zero must be refused"),
    }
}

#[test]
fn grid_getters_read_the_pair() {
    let e = entity("Crate", 4, 7, &[]);
    assert_eq!((e.grid_x(), e.grid_y()), (4, 7));
}

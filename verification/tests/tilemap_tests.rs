use tilemap_core::error::TilemapError;
use tilemap_core::geom::ChunkSize;
use tilemap_core::geom::LayerSettings;
use tilemap_core::geom::MapSize;
use tilemap_core::geom::TextureSize;
use tilemap_core::geom::Tile;
use tilemap_core::geom::TileColor;
use tilemap_core::geom::TilePos;
use tilemap_core::geom::TileSize;
use tilemap_core::tilemap::TileMap;

fn demo_settings() -> LayerSettings {
    LayerSettings::new(
        MapSize { width: 1, height: 1 },
        ChunkSize { width: 64, height: 64 },
        TileSize { width: 16, height: 16 },
        TextureSize { width: 96, height: 16 },
    )
}

#[test]
fn demo_scenario() {
    let settings = demo_settings();
    assert!(settings.is_valid());
    let mut map = TileMap::initialize(settings);
    assert_eq!(map.set_tile(0, TilePos::new(0, 0), Tile::with_index(2)), Ok(()));
    assert_eq!(map.set_tile(0, TilePos::new(0, 1), Tile::with_index(0)), Ok(()));
    assert_eq!(map.set_tile(0, TilePos::new(1, 0), Tile::with_index(1)), Ok(()));
    assert_eq!(map.get_tile(0, TilePos::new(0, 0)), Ok(Some(Tile::with_index(2))));
    assert_eq!(map.get_tile(0, TilePos::new(5, 5)), Ok(None));
    let meshes = map.rebuild_layer(0).unwrap();
    assert_eq!(meshes.len(), 1);
    assert_eq!(meshes[0].coord.x, 0);
    assert_eq!(meshes[0].coord.y, 0);
    assert_eq!(meshes[0].quads.len(), 3);
}

#[test]
fn demo_scenario_quad_geometry() {
    let settings = demo_settings();
    let mut map = TileMap::initialize(settings);
    map.set_tile(0, TilePos::new(0, 0), Tile::with_index(2)).unwrap();
    map.set_tile(0, TilePos::new(0, 1), Tile::with_index(0)).unwrap();
    map.set_tile(0, TilePos::new(1, 0), Tile::with_index(1)).unwrap();
    let meshes = map.rebuild_layer(0).unwrap();
    let quads = &meshes[0].quads;
    // Row-major by local slot: (0,0), then (1,0), then (0,1).
    assert_eq!((quads[0].x, quads[0].y), (0, 0));
    assert_eq!((quads[0].width, quads[0].height), (16, 16));
    assert_eq!(
        (quads[0].uv.u_min, quads[0].uv.v_min, quads[0].uv.u_max, quads[0].uv.v_max),
        (32, 0, 48, 16)
    );
    assert_eq!((quads[1].x, quads[1].y), (16, 0));
    assert_eq!(
        (quads[1].uv.u_min, quads[1].uv.v_min, quads[1].uv.u_max, quads[1].uv.v_max),
        (16, 0, 32, 16)
    );
    assert_eq!((quads[2].x, quads[2].y), (0, 16));
    assert_eq!(
        (quads[2].uv.u_min, quads[2].uv.v_min, quads[2].uv.u_max, quads[2].uv.v_max),
        (0, 0, 16, 16)
    );
}

#[test]
fn invalid_texture_index_rejected() {
    let settings = demo_settings();
    let mut map = TileMap::initialize(settings);
    // A 6-column, 1-row atlas cannot address index 999.
    assert_eq!(
        map.set_tile(0, TilePos::new(0, 0), Tile::with_index(999)),
        Err(TilemapError::InvalidTextureIndex)
    );
    // The failed write left the store unchanged.
    assert_eq!(map.get_tile(0, TilePos::new(0, 0)), Ok(None));
    assert_eq!(map.layer(0).unwrap().dirty_chunks().len(), 0);
}

#[test]
fn duplicate_layer_rejected() {
    let settings = demo_settings();
    let mut map = TileMap::new();
    let handle = map.add_layer(0, settings).unwrap();
    assert_eq!(handle.id, 0);
    assert_eq!(map.add_layer(0, settings), Err(TilemapError::DuplicateLayer));
}

#[test]
fn set_then_get_round_trip() {
    let settings = demo_settings();
    let mut map = TileMap::initialize(settings);
    let tile = Tile {
        texture_index: 5,
        flip_x: true,
        flip_y: false,
        color: Some(TileColor { r: 10, g: 20, b: 30, a: 255 }),
    };
    assert_eq!(map.set_tile(0, TilePos::new(63, 63), tile), Ok(()));
    assert_eq!(map.get_tile(0, TilePos::new(63, 63)), Ok(Some(tile)));
}

#[test]
fn overwrite_returns_latest() {
    let settings = demo_settings();
    let mut map = TileMap::initialize(settings);
    map.set_tile(0, TilePos::new(3, 4), Tile::with_index(1)).unwrap();
    map.set_tile(0, TilePos::new(3, 4), Tile::with_index(4)).unwrap();
    assert_eq!(map.get_tile(0, TilePos::new(3, 4)), Ok(Some(Tile::with_index(4))));
}

#[test]
fn out_of_bounds_write_leaves_store_unchanged() {
    let settings = demo_settings();
    let mut map = TileMap::initialize(settings);
    map.set_tile(0, TilePos::new(2, 2), Tile::with_index(3)).unwrap();
    // One chunk of 64x64 tiles: (64, 0) is already outside.
    assert_eq!(
        map.set_tile(0, TilePos::new(64, 0), Tile::with_index(1)),
        Err(TilemapError::OutOfBounds)
    );
    assert_eq!(
        map.set_tile(0, TilePos::new(0, 64), Tile::with_index(1)),
        Err(TilemapError::OutOfBounds)
    );
    assert_eq!(map.get_tile(0, TilePos::new(64, 0)), Ok(None));
    assert_eq!(map.get_tile(0, TilePos::new(2, 2)), Ok(Some(Tile::with_index(3))));
}

#[test]
fn rebuild_twice_second_dirty_set_empty() {
    let settings = demo_settings();
    let mut map = TileMap::initialize(settings);
    map.set_tile(0, TilePos::new(1, 2), Tile::with_index(1)).unwrap();
    assert_eq!(map.layer(0).unwrap().dirty_chunks().len(), 1);
    let first = map.rebuild_layer(0).unwrap();
    assert_eq!(first.len(), 1);
    assert_eq!(map.layer(0).unwrap().dirty_chunks().len(), 0);
    let second = map.rebuild_layer(0).unwrap();
    assert_eq!(second.len(), 0);
    // The rebuilds changed no tile.
    assert_eq!(map.get_tile(0, TilePos::new(1, 2)), Ok(Some(Tile::with_index(1))));
}

#[test]
fn unknown_layer_reported() {
    let settings = demo_settings();
    let mut map = TileMap::initialize(settings);
    assert_eq!(
        map.set_tile(7, TilePos::new(0, 0), Tile::with_index(0)),
        Err(TilemapError::UnknownLayer)
    );
    assert_eq!(map.get_tile(7, TilePos::new(0, 0)), Err(TilemapError::UnknownLayer));
    assert!(matches!(map.rebuild_layer(7), Err(TilemapError::UnknownLayer)));
    assert!(matches!(map.layer(7), Err(TilemapError::UnknownLayer)));
    assert_eq!(map.set_layer_settings(7, settings), Err(TilemapError::UnknownLayer));
}

#[test]
fn settings_immutable_once_tiles_exist() {
    let settings = demo_settings();
    let other = LayerSettings::new(
        MapSize { width: 2, height: 2 },
        ChunkSize { width: 8, height: 8 },
        TileSize { width: 16, height: 16 },
        TextureSize { width: 96, height: 16 },
    );
    let mut map = TileMap::initialize(settings);
    // Before any write the settings may still be replaced.
    assert_eq!(map.set_layer_settings(0, other), Ok(()));
    assert_eq!(map.layer(0).unwrap().settings, other);
    map.set_tile(0, TilePos::new(0, 0), Tile::with_index(1)).unwrap();
    assert_eq!(map.set_layer_settings(0, settings), Err(TilemapError::LayerSettingsImmutable));
    assert_eq!(map.layer(0).unwrap().settings, other);
}

#[test]
fn default_tile_is_index_zero_without_flags() {
    let tile = Tile::default();
    assert_eq!(tile.texture_index, 0);
    assert!(!tile.flip_x);
    assert!(!tile.flip_y);
    assert_eq!(tile.color, None);
}

#[test]
fn dirty_chunks_listed_in_row_major_order() {
    let settings = LayerSettings::new(
        MapSize { width: 2, height: 2 },
        ChunkSize { width: 4, height: 4 },
        TileSize { width: 16, height: 16 },
        TextureSize { width: 96, height: 16 },
    );
    let mut map = TileMap::initialize(settings);
    // Touch chunk (1,1) first, then chunk (0,0): the listing still comes
    // back in ascending row-major chunk order.
    map.set_tile(0, TilePos::new(5, 6), Tile::with_index(1)).unwrap();
    map.set_tile(0, TilePos::new(0, 0), Tile::with_index(2)).unwrap();
    let dirty = map.layer(0).unwrap().dirty_chunks();
    assert_eq!(dirty.len(), 2);
    assert_eq!((dirty[0].x, dirty[0].y), (0, 0));
    assert_eq!((dirty[1].x, dirty[1].y), (1, 1));
}

#[test]
fn rebuild_covers_only_dirty_chunks() {
    let settings = LayerSettings::new(
        MapSize { width: 2, height: 1 },
        ChunkSize { width: 4, height: 4 },
        TileSize { width: 16, height: 16 },
        TextureSize { width: 96, height: 16 },
    );
    let mut map = TileMap::initialize(settings);
    map.set_tile(0, TilePos::new(0, 0), Tile::with_index(1)).unwrap();
    map.set_tile(0, TilePos::new(4, 0), Tile::with_index(2)).unwrap();
    assert_eq!(map.rebuild_layer(0).unwrap().len(), 2);
    // Only the rewritten chunk is rebuilt the second time.
    map.set_tile(0, TilePos::new(4, 1), Tile::with_index(3)).unwrap();
    let meshes = map.rebuild_layer(0).unwrap();
    assert_eq!(meshes.len(), 1);
    assert_eq!((meshes[0].coord.x, meshes[0].coord.y), (1, 0));
    // The chunk's whole content is in the batch, not only the new write.
    assert_eq!(meshes[0].quads.len(), 2);
}

#[test]
fn flip_flags_and_tint_carried_into_quads() {
    let settings = demo_settings();
    let mut map = TileMap::initialize(settings);
    let tile = Tile {
        texture_index: 1,
        flip_x: true,
        flip_y: true,
        color: Some(TileColor { r: 1, g: 2, b: 3, a: 4 }),
    };
    map.set_tile(0, TilePos::new(2, 0), tile).unwrap();
    let meshes = map.rebuild_layer(0).unwrap();
    let quad = meshes[0].quads[0];
    assert!(quad.flip_x);
    assert!(quad.flip_y);
    assert_eq!(quad.color, Some(TileColor { r: 1, g: 2, b: 3, a: 4 }));
}

#[test]
fn uv_rect_for_multi_row_atlas() {
    // A 32x32 atlas of 16x16 tiles: 2 columns, 2 rows; index 3 sits at
    // column 1, row 1.
    let settings = LayerSettings::new(
        MapSize { width: 1, height: 1 },
        ChunkSize { width: 4, height: 4 },
        TileSize { width: 16, height: 16 },
        TextureSize { width: 32, height: 32 },
    );
    let mut map = TileMap::initialize(settings);
    map.set_tile(0, TilePos::new(0, 0), Tile::with_index(3)).unwrap();
    assert_eq!(
        map.set_tile(0, TilePos::new(0, 0), Tile::with_index(4)),
        Err(TilemapError::InvalidTextureIndex)
    );
    let meshes = map.rebuild_layer(0).unwrap();
    let quad = meshes[0].quads[0];
    assert_eq!(
        (quad.uv.u_min, quad.uv.v_min, quad.uv.u_max, quad.uv.v_max),
        (16, 16, 32, 32)
    );
}

#[test]
fn advance_frame_rebuilds_layers_in_draw_order() {
    let settings = demo_settings();
    let mut map = TileMap::new();
    map.add_layer(4, settings).unwrap();
    map.add_layer(2, settings).unwrap();
    map.set_tile(4, TilePos::new(0, 0), Tile::with_index(1)).unwrap();
    map.set_tile(2, TilePos::new(1, 1), Tile::with_index(2)).unwrap();
    let frame = map.advance_frame();
    assert_eq!(frame.len(), 2);
    // Draw order is insertion order, not id order.
    assert_eq!(frame[0].id, 4);
    assert_eq!(frame[1].id, 2);
    assert_eq!(frame[0].meshes.len(), 1);
    assert_eq!(frame[1].meshes.len(), 1);
    // Without intervening writes the next frame has nothing to rebuild.
    let quiet = map.advance_frame();
    assert_eq!(quiet.len(), 2);
    assert_eq!(quiet[0].meshes.len(), 0);
    assert_eq!(quiet[1].meshes.len(), 0);
}

#[test]
fn chunk_entries_visit_grid_in_row_major_order() {
    let settings = LayerSettings::new(
        MapSize { width: 2, height: 2 },
        ChunkSize { width: 4, height: 4 },
        TileSize { width: 16, height: 16 },
        TextureSize { width: 96, height: 16 },
    );
    let mut map = TileMap::initialize(settings);
    map.set_tile(0, TilePos::new(6, 1), Tile::with_index(2)).unwrap();
    let layer = map.layer(0).unwrap();
    assert_eq!(layer.chunk_slot_count(), 4);
    let mut seen = Vec::new();
    for k in 0..layer.chunk_slot_count() {
        if let Some((coord, chunk)) = layer.chunk_entry(k) {
            seen.push((coord.x, coord.y, chunk.dirty));
        }
    }
    // Only chunk (1, 0) was ever written.
    assert_eq!(seen, vec![(1, 0, true)]);
}

#[test]
fn texture_ready_queue_drained_once() {
    let mut map = TileMap::new();
    map.note_texture_ready(7);
    map.note_texture_ready(9);
    assert_eq!(map.take_nearest_updates(), vec![7, 9]);
    assert_eq!(map.take_nearest_updates(), Vec::<u64>::new());
}

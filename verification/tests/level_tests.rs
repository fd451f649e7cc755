use cavestory::animated_tile::Frame;
use cavestory::enemy::Enemy;
use cavestory::geometry::{Rect, Vector2};
use cavestory::level::{Level, MAP_HEIGHT, MAP_WIDTH};
use cavestory::map::{
    ImageDescription, LayerDescription, MapDescription, MapLoadError, ObjectDescription,
    ObjectGroupDescription, TileDescription, TilesetDescription,
};
use cavestory::player::Player;

fn object(name: &str, x: i64, y: i64, w: i64, h: i64) -> ObjectDescription {
    ObjectDescription {
        name: name.to_owned(),
        x,
        y,
        width: w,
        height: h,
        polyline: None,
        properties: Vec::new(),
    }
}

fn sample_map() -> MapDescription {
    let collision_grid = vec![
        vec![0, 0, 0, 0],
        vec![0, 0, 0, 0],
        vec![1, 1, 0, 2],
    ];
    let animation_grid = vec![
        vec![3, 0, 0, 0],
        vec![0, 0, 0, 0],
        vec![0, 0, 0, 0],
    ];
    let mut door = object("door", 16_000, 16_000, 16_000, 16_000);
    door.properties.push(("destination".to_owned(), "cave".to_owned()));
    let mut ramp = object("ramp", 0, 0, 0, 0);
    ramp.polyline = Some(vec![(0, 32_000), (16_500, 16_000), (32_000, 0)]);
    MapDescription {
        width: 4,
        height: 3,
        tile_width: 16,
        tile_height: 16,
        tilesets: vec![
            TilesetDescription {
                first_gid: 1,
                tile_width: 16,
                tile_height: 16,
                images: vec![
                    ImageDescription { source: "tileset".to_owned(), width: 64, height: 32 },
                ],
                tiles: vec![
                    TileDescription {
                        id: 2,
                        animation: Some(
                            vec![
                                Frame { tile_id: 0, duration: 100 },
                                Frame { tile_id: 1, duration: 100 },
                            ],
                        ),
                    },
                ],
            },
        ],
        layers: vec![
            LayerDescription { name: "collision".to_owned(), tiles: collision_grid },
            LayerDescription { name: "animation".to_owned(), tiles: animation_grid },
        ],
        object_groups: vec![
            ObjectGroupDescription { name: "slope".to_owned(), objects: vec![ramp] },
            ObjectGroupDescription {
                name: "start".to_owned(),
                objects: vec![object("", 8_500, 4_000, 0, 0)],
            },
            ObjectGroupDescription { name: "doors".to_owned(), objects: vec![door] },
            ObjectGroupDescription {
                name: "enemies".to_owned(),
                objects: vec![object("bat", 32_000, 16_000, 0, 0)],
            },
        ],
    }
}

#[test]
fn screen_is_a_fixed_tile_grid() {
    assert_eq!(MAP_WIDTH, 20);
    assert_eq!(MAP_HEIGHT, 16);
}

#[test]
fn load_decodes_blocks_slopes_doors_start_and_enemies() {
    let level = Level::load(sample_map()).unwrap();

    // One block per non-zero collision cell, sized to one tile.
    assert_eq!(
        level.blocks,
        vec![Rect::new(0, 32, 16, 16), Rect::new(16, 32, 16, 16), Rect::new(48, 32, 16, 16)]
    );

    // One slope per consecutive polyline point pair, endpoints rounded up.
    assert_eq!(level.slopes.len(), 2);
    assert_eq!(level.slopes[0].from, Vector2(0, 32));
    assert_eq!(level.slopes[0].to, Vector2(17, 16));
    assert_eq!(level.slopes[1].from, Vector2(17, 16));
    assert_eq!(level.slopes[1].to, Vector2(32, 0));

    // The door keeps its destination and truncated trigger region.
    assert_eq!(level.doors.len(), 1);
    assert_eq!(level.doors[0].destination, "cave");
    assert_eq!(level.doors[0].position, Rect::new(16, 16, 16, 16));

    // Start position truncates to whole pixels.
    assert_eq!(level.start_pos, Vector2(8, 4));

    // The animated tile is keyed by its global id, frames offset likewise.
    assert_eq!(level.animations.len(), 1);
    assert_eq!(level.animations[0].0, 3);
    assert_eq!(
        level.animations[0].1.animation,
        vec![Frame { tile_id: 1, duration: 100 }, Frame { tile_id: 2, duration: 100 }]
    );

    // One bat, spawned with its flight clips and facing nothing yet.
    assert_eq!(level.enemies.len(), 1);
    let Enemy::Bat(bat) = &level.enemies[0];
    assert_eq!((bat.x, bat.y), (32, 16));
    assert_eq!(bat.animation.current_animation, "fly_left");

    // The atlas cuts the 64x32 image into a 4x2 grid.
    assert_eq!(level.tile_atlases.len(), 1);
    assert_eq!(level.tile_atlases[0].columns, 4);
    assert_eq!(level.tile_atlases[0].rows, 2);
    assert_eq!(level.tile_atlases[0].image, "tileset");
}

#[test]
fn door_without_destination_fails_the_load() {
    let mut desc = sample_map();
    desc.object_groups[2].objects[0].properties.clear();
    assert!(matches!(Level::load(desc), Err(MapLoadError::MissingDestination)));
}

#[test]
fn tileset_without_image_fails_the_load() {
    let mut desc = sample_map();
    desc.tilesets[0].images.clear();
    assert!(matches!(Level::load(desc), Err(MapLoadError::MissingTilesetImage)));
}

#[test]
fn degenerate_dimensions_fail_the_load() {
    let mut desc = sample_map();
    desc.width = 0;
    assert!(matches!(Level::load(desc), Err(MapLoadError::Malformed)));
}

#[test]
fn misshapen_grid_fails_the_load() {
    let mut desc = sample_map();
    desc.layers[0].tiles[1].pop();
    assert!(matches!(Level::load(desc), Err(MapLoadError::Malformed)));
}

#[test]
fn empty_start_group_fails_the_load() {
    let mut desc = sample_map();
    desc.object_groups[1].objects.clear();
    assert!(matches!(Level::load(desc), Err(MapLoadError::Malformed)));
}

#[test]
fn vertical_slope_fails_the_load() {
    let mut desc = sample_map();
    desc.object_groups[0].objects[0].polyline = Some(vec![(0, 0), (0, 16_000)]);
    assert!(matches!(Level::load(desc), Err(MapLoadError::Malformed)));
}

#[test]
fn unrecognized_layers_and_groups_are_ignored() {
    let mut desc = sample_map();
    desc.object_groups.push(ObjectGroupDescription {
        name: "decorations".to_owned(),
        objects: vec![object("vine", 1, 1, 1, 1)],
    });
    let level = Level::load(desc).unwrap();
    assert_eq!(level.blocks.len(), 3);
    assert_eq!(level.doors.len(), 1);
}

#[test]
fn collision_queries_filter_by_overlap() {
    let level = Level::load(sample_map()).unwrap();
    let probe = Rect::new(0, 31, 16, 16);
    assert_eq!(level.collided_blocks(&probe), vec![Rect::new(0, 32, 16, 16)]);
    assert_eq!(level.collided_blocks(&Rect::new(100, 100, 4, 4)), vec![]);

    let door_probe = Rect::new(20, 20, 4, 4);
    let doors = level.collided_doors(&door_probe);
    assert_eq!(doors.len(), 1);
    assert_eq!(doors[0].destination, "cave");

    let slope_probe = Rect::new(10, 10, 10, 10);
    assert_eq!(level.collided_slopes(&slope_probe).len(), 2);
}

#[test]
fn level_tick_advances_cycles_and_enemies() {
    let mut level = Level::load(sample_map()).unwrap();
    let player = Player::new(100, 16);
    // The cycle starts spent, so the first tick advances to the next frame.
    level.update(16, &player);
    assert_eq!(level.animations[0].1.index, 1);
    assert_eq!(level.animations[0].1.duration, 100);
    let Enemy::Bat(bat) = &level.enemies[0];
    // The bat drifts down (80 * 16 / 1000 truncates to 1 pixel) and turns
    // toward the player on its right.
    assert_eq!(bat.y, 17);
    assert_eq!(bat.animation.current_animation, "fly_right");
}

#[test]
fn point_to_tile_translates_world_coordinates() {
    let level = Level::load(sample_map()).unwrap();
    assert_eq!(level.point_to_tile(0, 0, 0), (0, 0));
    assert_eq!(level.point_to_tile(0, 33, 17), (2, 1));
    // Clamping is relative to the queried corner, not to the map.
    assert_eq!(level.point_to_tile(0, 1000, 1000), (62, 62));
    assert_eq!(level.get_tile_xy(2, 1), (32, 16));
    assert_eq!(level.get_tile_xy(50, 50), (64, 48));
}

#[test]
fn render_draws_visible_non_collision_cells() {
    let level = Level::load(sample_map()).unwrap();
    let camera = Rect::new(0, 0, 64, 48);
    let cmds = level.render(&camera);
    // The animation layer holds one non-zero cell: global id 3, whose cycle
    // currently shows frame id 1 — the atlas's first tile.
    assert_eq!(cmds.len(), 1);
    assert_eq!(cmds[0].image, "tileset");
    assert_eq!(cmds[0].source, Rect::new(0, 0, 16, 16));
    assert_eq!(cmds[0].dest, Rect::new(0, 0, 32, 32));
}

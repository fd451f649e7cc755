use cavestory::game::{bool_to_sign, Game, InputState, MAX_FRAME_TIME, SPRITE_SCALE};
use cavestory::geometry::Rect;
use cavestory::map::{
    ImageDescription, LayerDescription, MapDescription, MapLoadError, ObjectDescription,
    ObjectGroupDescription, TilesetDescription,
};
use cavestory::player::{Direction, JUMP_SPPED, WALK_SPEED};
use cavestory::GameResult;

fn idle_input() -> InputState {
    InputState {
        move_right_held: false,
        move_left_held: false,
        look_up_held: false,
        look_down_held: false,
        look_up_released: false,
        look_down_released: false,
        jump_held: false,
    }
}

/// A 2x2-tile map: the player starts at the origin, a solid block sits one
/// tile below, and a door overlapping the start leads to "next".
fn tiny_map() -> MapDescription {
    let mut door = ObjectDescription {
        name: "door".to_owned(),
        x: 0,
        y: 0,
        width: 16_000,
        height: 16_000,
        polyline: None,
        properties: Vec::new(),
    };
    door.properties.push(("destination".to_owned(), "next".to_owned()));
    MapDescription {
        width: 2,
        height: 2,
        tile_width: 16,
        tile_height: 16,
        tilesets: vec![
            TilesetDescription {
                first_gid: 1,
                tile_width: 16,
                tile_height: 16,
                images: vec![
                    ImageDescription { source: "tileset".to_owned(), width: 32, height: 32 },
                ],
                tiles: Vec::new(),
            },
        ],
        layers: vec![
            LayerDescription {
                name: "collision".to_owned(),
                tiles: vec![vec![0, 0], vec![1, 1]],
            },
        ],
        object_groups: vec![
            ObjectGroupDescription {
                name: "start".to_owned(),
                objects: vec![
                    ObjectDescription {
                        name: "".to_owned(),
                        x: 0,
                        y: 0,
                        width: 0,
                        height: 0,
                        polyline: None,
                        properties: Vec::new(),
                    },
                ],
            },
            ObjectGroupDescription { name: "doors".to_owned(), objects: vec![door] },
        ],
    }
}

#[test]
fn change_map_spawns_the_player_at_the_start() {
    let mut game = Game::new();
    assert!(game.change_map(tiny_map()).is_ok());
    let player = game.player.as_ref().unwrap();
    assert_eq!((player.x, player.y), (0, 0));
    assert!(!player.grounded);
    assert!(game.level.is_some());
}

#[test]
fn change_map_surfaces_load_errors_untouched() {
    let mut game = Game::new();
    let mut desc = tiny_map();
    desc.object_groups[1].objects[0].properties.clear();
    assert_eq!(game.change_map(desc), Err(MapLoadError::MissingDestination));
    assert!(game.player.is_none());
    assert!(game.level.is_none());
}

#[test]
fn falling_player_lands_on_the_block_row() {
    let mut game = Game::new();
    game.change_map(tiny_map()).unwrap();
    // Gravity accumulates until the player sinks into the block row below
    // and is snapped back on top of it.
    for _ in 0..8 {
        assert!(matches!(game.update(MAX_FRAME_TIME), GameResult::NoTransition));
    }
    let player = game.player.as_ref().unwrap();
    assert!(player.grounded);
    assert_eq!(player.y, 0);
    assert_eq!(player.dy, 0);
}

#[test]
fn door_requires_grounded_and_looking_down() {
    let mut game = Game::new();
    game.change_map(tiny_map()).unwrap();
    for _ in 0..8 {
        game.update(MAX_FRAME_TIME);
    }
    assert!(game.player.as_ref().unwrap().grounded);

    // Overlapping the door but not looking down: no transition.
    assert!(matches!(game.update(MAX_FRAME_TIME), GameResult::NoTransition));

    let mut input = idle_input();
    input.look_down_held = true;
    game.process_key_event(&input);
    assert!(game.player.as_ref().unwrap().looking_down);

    match game.update(MAX_FRAME_TIME) {
        GameResult::GotoMap(name) => assert_eq!(name, "next"),
        GameResult::NoTransition => panic!("the door should have triggered"),
    }
}

#[test]
fn held_keys_drive_the_player_state_machine() {
    let mut game = Game::new();
    game.change_map(tiny_map()).unwrap();

    let mut input = idle_input();
    input.move_right_held = true;
    game.process_key_event(&input);
    {
        let player = game.player.as_ref().unwrap();
        assert_eq!(player.dx, WALK_SPEED);
        assert_eq!(player.facing, Direction::Right);
        assert_eq!(player.animation.current_animation, "move_right");
    }

    // Releasing everything stops the walk and idles toward the facing.
    let input = idle_input();
    game.process_key_event(&input);
    {
        let player = game.player.as_ref().unwrap();
        assert_eq!(player.dx, 0);
        assert_eq!(player.animation.current_animation, "idle_right");
    }

    // Landing first, then jumping through the input path.
    for _ in 0..8 {
        game.update(MAX_FRAME_TIME);
    }
    assert!(game.player.as_ref().unwrap().grounded);
    let mut input = idle_input();
    input.jump_held = true;
    game.process_key_event(&input);
    {
        let player = game.player.as_ref().unwrap();
        assert!(!player.grounded);
        assert_eq!(player.dy, -JUMP_SPPED);
    }
}

#[test]
fn update_without_a_map_changes_nothing() {
    let mut game = Game::new();
    assert!(matches!(game.update(16), GameResult::NoTransition));
    assert!(game.player.is_none());
}

#[test]
fn render_lists_map_then_player() {
    let mut game = Game::new();
    game.change_map(tiny_map()).unwrap();
    let cmds = game.render().unwrap();
    // The collision layer is never drawn; the player contributes its idle
    // frame at the start position, doubled in size on screen.
    assert_eq!(cmds.len(), 1);
    assert_eq!(cmds[0].image, "player");
    assert_eq!(cmds[0].dest, Rect::new(0, 0, 16 * SPRITE_SCALE, 16 * SPRITE_SCALE));
}

#[test]
fn sign_of_a_flag() {
    assert_eq!(bool_to_sign(true), 1);
    assert_eq!(bool_to_sign(false), 0);
}

use cavestory::door::Door;
use cavestory::geometry::{Rect, Vector2};
use cavestory::level::Slope;
use cavestory::player::{Direction, Player, GRAVITY, GRAVITY_CAP, JUMP_SPPED, WALK_SPEED};

#[test]
fn gravity_ramps_up_to_the_cap_and_stays_there() {
    let mut player = Player::new(0, 0);
    let mut previous = 0;
    for tick in 1..=60 {
        player.update(16);
        let expected = if GRAVITY * tick <= GRAVITY_CAP { GRAVITY * tick } else { GRAVITY_CAP };
        assert_eq!(player.dy, expected);
        assert!(player.dy >= previous);
        assert!(player.dy <= GRAVITY_CAP);
        previous = player.dy;
    }
    assert_eq!(player.dy, GRAVITY_CAP);
}

#[test]
fn first_tick_from_rest_keeps_position_and_facing() {
    let mut player = Player::new(0, 0);
    player.update(16);
    // dy becomes one gravity increment; 20 * 16 / 1000 truncates to zero
    // pixels, so the position is unchanged.
    assert_eq!((player.x, player.y), (0, 0));
    assert_eq!(player.dy, GRAVITY);
    assert!(!player.grounded);
    assert_eq!(player.facing, Direction::IdleLeft);
    // The hitbox tracks the position after every update.
    assert_eq!((player.collision.x, player.collision.y), (0, 0));
}

#[test]
fn landing_then_jumping_gives_the_impulse_at_once() {
    let mut player = Player::new(0, 9);
    // Sunk one row into a block below: resolves as a bottom contact.
    player.handle_tile_collision(&vec![Rect::new(0, 16, 16, 16)]);
    assert!(player.grounded);
    assert_eq!(player.y, 0);
    assert_eq!(player.dy, 0);

    player.jump();
    assert!(!player.grounded);
    assert_eq!(player.dy, -JUMP_SPPED);

    // A second jump while airborne does nothing.
    player.jump();
    assert_eq!(player.dy, -JUMP_SPPED);
}

#[test]
fn ceiling_contact_stops_the_rise() {
    let mut player = Player::new(0, 20);
    // A block just above: smallest penetration is the mover's top edge.
    player.handle_tile_collision(&vec![Rect::new(0, 7, 16, 16)]);
    assert_eq!(player.y, 23);
    assert_eq!(player.dy, 0);
    assert!(!player.grounded);
}

#[test]
fn wall_contact_stops_horizontal_motion() {
    let mut player = Player::new(14, 0);
    player.move_right();
    assert_eq!(player.dx, WALK_SPEED);
    player.handle_tile_collision(&vec![Rect::new(29, 0, 16, 16)]);
    assert_eq!(player.x, 13);
    assert_eq!(player.dx, 0);
}

#[test]
fn grounded_player_snaps_onto_the_ramp() {
    let mut player = Player::new(0, 9);
    player.handle_tile_collision(&vec![Rect::new(0, 16, 16, 16)]);
    assert!(player.grounded);
    // Ramp descending from (0,16) to (16,0); the hitbox center is at x = 8,
    // where the surface height is 8; the player sits 4 above it, minus the
    // hitbox height.
    let slope = Slope { from: Vector2(0, 16), to: Vector2(16, 0) };
    player.handle_slope_collision(&vec![slope]);
    assert!(player.grounded);
    assert_eq!(player.y, 8 - 4 - 16);
}

#[test]
fn airborne_player_is_grounded_by_a_slope_without_snapping() {
    let mut player = Player::new(0, 9);
    assert!(!player.grounded);
    let slope = Slope { from: Vector2(0, 16), to: Vector2(16, 0) };
    player.handle_slope_collision(&vec![slope]);
    assert!(player.grounded);
    assert_eq!(player.y, 9);
}

#[test]
fn door_triggers_only_grounded_and_looking_down() {
    let door = Door::new("cave".to_owned(), Rect::new(0, 0, 16, 16));
    let mut player = Player::new(0, 9);
    player.handle_tile_collision(&vec![Rect::new(0, 16, 16, 16)]);
    assert!(player.grounded);

    // Overlapping but not looking down: no transition.
    let silent = player.handle_door_collision(&vec![door.clone()]);
    assert_eq!(silent, "");

    player.look_down();
    let destination = player.handle_door_collision(&vec![door.clone()]);
    assert_eq!(destination, "cave");

    // The last of several doors wins.
    let other = Door::new("tower".to_owned(), Rect::new(0, 0, 16, 16));
    let last = player.handle_door_collision(&vec![door, other]);
    assert_eq!(last, "tower");
}

#[test]
fn walking_selects_the_matching_clip_and_facing() {
    let mut player = Player::new(0, 0);
    player.move_right();
    assert_eq!(player.facing, Direction::Right);
    assert_eq!(player.dx, WALK_SPEED);
    assert_eq!(player.animation.current_animation, "move_right");

    player.move_left();
    assert_eq!(player.facing, Direction::Left);
    assert_eq!(player.dx, -WALK_SPEED);
    assert_eq!(player.animation.current_animation, "move_left");

    player.stop();
    assert_eq!(player.dx, 0);
    assert_eq!(player.animation.current_animation, "idle_left");
}

#[test]
fn switching_walk_direction_restarts_the_clip() {
    let mut player = Player::new(0, 0);
    player.move_right();
    player.update(200);
    assert_eq!(player.animation.current_clip().unwrap().frame_index, 1);
    player.move_left();
    player.move_right();
    // Coming back to the right walking clip starts it over.
    assert_eq!(player.animation.current_clip().unwrap().frame_index, 0);
}

#[test]
fn shallow_ramp_snap_truncates_once() {
    let mut player = Player::new(0, 9);
    player.handle_tile_collision(&vec![Rect::new(0, 16, 16, 16)]);
    assert!(player.grounded);
    // Ramp rising one pixel over 32: the surface height at center x = 8 is
    // 0.25, and the whole expression 0.25 - 4 - 16 truncates toward zero to
    // -19 in one step.
    let slope = Slope { from: Vector2(0, 0), to: Vector2(32, 1) };
    player.handle_slope_collision(&vec![slope]);
    assert_eq!(player.y, -19);
}

#[test]
fn crouched_player_refuses_to_walk() {
    let mut player = Player::new(0, 9);
    player.handle_tile_collision(&vec![Rect::new(0, 16, 16, 16)]);
    player.look_down();
    player.move_right();
    assert_eq!(player.dx, 0);
}

#[test]
fn look_state_selects_clips() {
    let mut player = Player::new(0, 0);
    player.look_up();
    assert!(player.looking_up);
    assert_eq!(player.animation.current_animation, "idle_left_up");
    player.stop_looking_up();
    assert!(!player.looking_up);

    player.look_down();
    assert!(player.looking_down);
    // Airborne: looks down rather than turning around.
    assert_eq!(player.animation.current_animation, "look_down_left");
    player.stop_looking_down();
    assert!(!player.looking_down);
}

#[test]
fn move_vector_scales_walk_speed() {
    let mut player = Player::new(0, 0);
    player.move_vector((3, 0));
    assert_eq!(player.dx, 3 * WALK_SPEED);
    player.move_vector((-2, 0));
    assert_eq!(player.dx, -2 * WALK_SPEED);
    player.stop_moving();
    assert_eq!((player.dx, player.dy), (0, 0));
}

use crate::animate_sprite::switch_clip;
use crate::animation::{clip_tick, Animation};
use crate::geometry::{Rect, MAX_TICK};
use crate::level::{
    desc_loadable, desc_malformed, doors_have_destinations, filter_blocks, filter_doors,
    filter_slopes, level_decodes, tilesets_have_images, Level,
};
use crate::map::{MapDescription, MapLoadError};
use crate::sprite::DrawCommand;
use crate::player::{
    collide_all, door_result, fresh_player_at, slope_all, update_kin, Direction, Player,
    GRAVITY_CAP, JUMP_SPPED, WALK_SPEED,
};
use crate::GameResult;
use vstd::prelude::*;

verus! {

/// Ticks per second the surrounding loop aims for.
pub const FPS: u32 = 60;

/// The longest frame time one tick may carry, in milliseconds; the
/// surrounding loop clamps the elapsed time to this before updating.
pub const MAX_FRAME_TIME: u32 = 1000 / FPS;

pub const SCREEN_WIDTH: u32 = 640;

pub const SCREEN_HEIGHT: u32 = 480;

/// Factor by which world pixels are blown up on screen.
pub const SPRITE_SCALE: u32 = 2;

/// One when the flag is set, zero otherwise.
pub fn bool_to_sign(b: bool) -> (r: i32)
    ensures
        r == if b {
            1int
        } else {
            0int
        },
{
    if b {
        1
    } else {
        0
    }
}

/// What the input capability reports for one tick: which logical actions are
/// held, and which were just released.
#[derive(Clone, Copy, PartialEq, Eq, Structural, Debug)]
pub struct InputState {
    pub move_right_held: bool,
    pub move_left_held: bool,
    pub look_up_held: bool,
    pub look_down_held: bool,
    pub look_up_released: bool,
    pub look_down_released: bool,
    pub jump_held: bool,
}

/// The part of the player the input state machine acts on: the kinematic
/// scalars, the look flags, the current clip name, and the clip registry —
/// a genuine clip switch rewinds the newly current clip.
pub ghost struct PlayerView {
    pub dx: int,
    pub dy: int,
    pub facing: Direction,
    pub grounded: bool,
    pub looking_up: bool,
    pub looking_down: bool,
    pub current: Seq<char>,
    pub reg: Map<Seq<char>, Animation>,
}

pub open spec fn view_of(p: Player) -> PlayerView {
    PlayerView {
        dx: p.dx as int,
        dy: p.dy as int,
        facing: p.facing,
        grounded: p.grounded,
        looking_up: p.looking_up,
        looking_down: p.looking_down,
        current: p.animation.current_animation@,
        reg: p.animation.reg(),
    }
}

/// The view after the clip of the given name is selected.
pub open spec fn select_clip(v: PlayerView, name: Seq<char>) -> PlayerView {
    PlayerView { current: name, reg: switch_clip(v.reg, v.current, name), ..v }
}

/// The effect of holding the walk-right action.
pub open spec fn input_move_right(v: PlayerView) -> PlayerView {
    if v.looking_down && v.grounded {
        v
    } else {
        let v1 = if v.looking_up {
            v
        } else {
            select_clip(v, "move_right"@)
        };
        PlayerView { dx: WALK_SPEED as int, facing: Direction::Right, ..v1 }
    }
}

/// The effect of holding the walk-left action.
pub open spec fn input_move_left(v: PlayerView) -> PlayerView {
    if v.looking_down && v.grounded {
        v
    } else {
        let v1 = if v.looking_up {
            v
        } else {
            select_clip(v, "move_left"@)
        };
        PlayerView { dx: -WALK_SPEED as int, facing: Direction::Left, ..v1 }
    }
}

/// The effect of holding neither horizontal action.
pub open spec fn input_stop(v: PlayerView) -> PlayerView {
    let v1 = if !v.looking_up && !v.looking_down {
        select_clip(
            v,
            if v.facing == Direction::Right {
                "idle_right"@
            } else {
                "idle_left"@
            },
        )
    } else {
        v
    };
    PlayerView { dx: 0, ..v1 }
}

/// The effect of holding the look-up action.
pub open spec fn input_look_up(v: PlayerView) -> PlayerView {
    let v1 = select_clip(
        v,
        if v.dx == 0 {
            if v.facing == Direction::Right {
                "idle_right_up"@
            } else {
                "idle_left_up"@
            }
        } else {
            if v.facing == Direction::Right {
                "move_right_up"@
            } else {
                "move_left_up"@
            }
        },
    );
    PlayerView { looking_up: true, ..v1 }
}

/// The effect of holding the look-down action.
pub open spec fn input_look_down(v: PlayerView) -> PlayerView {
    let v1 = select_clip(
        v,
        if v.grounded {
            if v.facing == Direction::Right {
                "look_backwards_right"@
            } else {
                "look_backwards_left"@
            }
        } else {
            if v.facing == Direction::Right {
                "look_down_right"@
            } else {
                "look_down_left"@
            }
        },
    );
    PlayerView { looking_down: true, ..v1 }
}

/// The effect of holding the jump action.
pub open spec fn input_jump(v: PlayerView) -> PlayerView {
    if v.grounded {
        PlayerView { dy: -JUMP_SPPED as int, grounded: false, ..v }
    } else {
        v
    }
}

/// How one tick's input transforms the player: horizontal motion first, then
/// the look modifiers, then the look releases, then the jump.
pub open spec fn apply_input(v: PlayerView, input: InputState) -> PlayerView {
    let v1 = if input.move_right_held {
        input_move_right(v)
    } else if input.move_left_held {
        input_move_left(v)
    } else {
        input_stop(v)
    };
    let v2 = if input.look_up_held {
        input_look_up(v1)
    } else if input.look_down_held {
        input_look_down(v1)
    } else {
        v1
    };
    let v3 = if input.look_up_released {
        PlayerView { looking_up: false, ..v2 }
    } else {
        v2
    };
    let v4 = if input.look_down_released {
        PlayerView { looking_down: false, ..v3 }
    } else {
        v3
    };
    if input.jump_held {
        input_jump(v4)
    } else {
        v4
    }
}

/// The per-tick director: owns the player and the current level, advances
/// both each tick in the load-bearing order — integrate motion, resolve
/// block collisions, resolve slopes, resolve doors, then advance the level's
/// animations and enemies — and reports a requested map transition.
pub struct Game {
    pub player: Option<Player>,
    pub level: Option<Level>,
}

impl Game {
    pub open spec fn wf(self) -> bool {
        &&& match self.player {
            Option::Some(p) => p.wf(),
            Option::None => true,
        }
        &&& match self.level {
            Option::Some(l) => l.wf(),
            Option::None => true,
        }
    }

    /// A director with no map loaded and no player spawned.
    pub fn new() -> (r: Game)
        ensures
            r.player is None,
            r.level is None,
            r.wf(),
    {
        Game { player: None, level: None }
    }

    /// Replaces the current map wholesale with the decoding of the given
    /// description, and spawns a fresh player at its start position. On
    /// failure nothing changes and no partial map is kept.
    pub fn change_map(&mut self, desc: MapDescription) -> (r: Result<(), MapLoadError>)
        requires
            old(self).wf(),
        ensures
            final(self).wf(),
            r == Result::<(), MapLoadError>::Err(MapLoadError::Malformed) <==> desc_malformed(
                desc,
            ),
            r == Result::<(), MapLoadError>::Err(MapLoadError::MissingTilesetImage) <==> (
            !desc_malformed(desc) && !tilesets_have_images(desc.tilesets@)),
            r == Result::<(), MapLoadError>::Err(MapLoadError::MissingDestination) <==> (
            !desc_malformed(desc) && tilesets_have_images(desc.tilesets@)
                && !doors_have_destinations(desc.object_groups@)),
            r is Ok <==> desc_loadable(desc),
            r is Err ==> *final(self) == *old(self),
            r is Ok ==> {
                &&& final(self).level is Some
                &&& level_decodes(final(self).level.unwrap(), desc)
                &&& final(self).player is Some
                &&& fresh_player_at(
                    final(self).player.unwrap(),
                    final(self).level.unwrap().start_pos.0 as int,
                    final(self).level.unwrap().start_pos.1 as int,
                )
            },
    {
        match Level::load(desc) {
            Ok(level) => {
                let start = level.start_pos;
                let player = Player::new(start.left(), start.top());
                self.level = Some(level);
                self.player = Some(player);
                Ok(())
            },
            Err(e) => Err(e),
        }
    }

    /// Routes one tick's input to the player: horizontal motion, the look
    /// modifiers and releases, and the jump, in that order.
    pub fn process_key_event(&mut self, input: &InputState)
        requires
            old(self).wf(),
            old(self).player is Some,
        ensures
            final(self).wf(),
            final(self).level == old(self).level,
            final(self).player is Some,
            ({
                let p0 = old(self).player.unwrap();
                let p1 = final(self).player.unwrap();
                &&& view_of(p1) == apply_input(view_of(p0), *input)
                &&& p1.x == p0.x
                &&& p1.y == p0.y
                &&& p1.collision == p0.collision
                &&& p1.max_health == p0.max_health
                &&& p1.current_health == p0.current_health
                &&& p1.animation.name == p0.animation.name
            }),
    {
        let player = match &mut self.player {
            Some(p) => p,
            None => {
                proof {
                    assert(false);
                }
                return ;
            },
        };

        if input.move_right_held {
            player.move_right();
        } else if input.move_left_held {
            player.move_left();
        } else {
            player.stop();
        }

        if input.look_up_held {
            player.look_up();
        } else if input.look_down_held {
            player.look_down();
        }

        if input.look_up_released {
            player.stop_looking_up();
        }
        if input.look_down_released {
            player.stop_looking_down();
        }

        if input.jump_held {
            player.jump();
        }
    }

    /// One simulation tick: the player integrates its motion and gravity,
    /// colliding blocks are resolved in stored order, then slopes, then door
    /// triggers; a triggered door ends the tick with a transition request and
    /// the level untouched; otherwise the level's animated tiles and enemies
    /// take their turn.
    pub fn update(&mut self, dt: u32) -> (r: GameResult)
        requires
            old(self).wf(),
            dt <= MAX_TICK,
        ensures
            final(self).wf(),
            old(self).player is None ==> *final(self) == *old(self) && r is NoTransition,
            old(self).player is Some ==> ({
                let p0 = old(self).player.unwrap();
                let k1 = update_kin(p0.kin(), dt as int);
                let w = p0.collision.width;
                let h = p0.collision.height;
                let hb1 = Rect { x: k1.x as i32, y: k1.y as i32, width: w, height: h };
                &&& final(self).player is Some
                &&& ({
                    let p1 = final(self).player.unwrap();
                    &&& p1.looking_up == p0.looking_up
                    &&& p1.looking_down == p0.looking_down
                    &&& p1.max_health == p0.max_health
                    &&& p1.current_health == p0.current_health
                    &&& p1.animation.name == p0.animation.name
                    &&& p1.animation.current_animation == p0.animation.current_animation
                    &&& p1.animation.reg() == p0.animation.reg().insert(
                        p0.animation.current_animation@,
                        clip_tick(p0.animation.reg()[p0.animation.current_animation@], dt),
                    )
                    &&& match old(self).level {
                        Option::None => {
                            &&& p1.kin() == k1
                            &&& p1.collision == hb1
                            &&& final(self).level is None
                            &&& r is NoTransition
                        },
                        Option::Some(l0) => {
                            let bl = filter_blocks(l0.blocks@, hb1);
                            let k2 = collide_all(k1, w as int, h as int, bl);
                            let hb2 = Rect { x: k2.x as i32, y: k2.y as i32, width: w, height: h };
                            let sl = filter_slopes(l0.slopes@, hb2);
                            let k3 = slope_all(k2, hb2.spec_center_x2(), h as int, sl);
                            let drs = filter_doors(l0.doors@, hb2);
                            let dest = door_result(k3.grounded, p0.looking_down, drs);
                            &&& p1.kin() == k3
                            &&& p1.collision == hb2
                            &&& if dest.len() > 0 {
                                &&& (r matches GameResult::GotoMap(s) && s@ == dest)
                                &&& final(self).level == old(self).level
                            } else {
                                &&& r is NoTransition
                                &&& final(self).level is Some
                                &&& ({
                                    let l1 = final(self).level.unwrap();
                                    &&& l1.animations@.len() == l0.animations@.len()
                                    &&& forall|i: int|
                                        0 <= i < l1.animations@.len() ==> (
                                        #[trigger] l1.animations@[i]).0 == l0.animations@[i].0
                                            && l1.animations@[i].1
                                            == crate::animated_tile::tile_tick(
                                            l0.animations@[i].1,
                                            dt,
                                        )
                                    &&& l1.enemies@.len() == l0.enemies@.len()
                                    &&& forall|i: int|
                                        0 <= i < l1.enemies@.len() ==> crate::enemy::enemy_stepped(
                                            l0.enemies@[i],
                                            #[trigger] l1.enemies@[i],
                                            dt,
                                            k3.x,
                                        )
                                    &&& l1 == (Level {
                                        animations: l1.animations,
                                        enemies: l1.enemies,
                                        ..l0
                                    })
                                })
                            }
                        },
                    }
                })
            }),
    {
        let player = match &mut self.player {
            Some(p) => p,
            None => {
                return GameResult::NoTransition;
            },
        };
        player.update(dt);

        match &mut self.level {
            Some(level) => {
                let collided_blocks = level.collided_blocks(&player.collision);
                if collided_blocks.len() > 0 {
                    player.handle_tile_collision(&collided_blocks);
                } else {
                    proof {
                        assert(collide_all(
                            player.kin(),
                            player.collision.width as int,
                            player.collision.height as int,
                            collided_blocks@,
                        ) == player.kin());
                    }
                }

                let collided_slopes = level.collided_slopes(&player.collision);
                if collided_slopes.len() > 0 {
                    player.handle_slope_collision(&collided_slopes);
                } else {
                    proof {
                        assert(slope_all(
                            player.kin(),
                            player.collision.spec_center_x2(),
                            player.collision.height as int,
                            collided_slopes@,
                        ) == player.kin());
                    }
                }

                let collided_doors = level.collided_doors(&player.collision);
                if collided_doors.len() > 0 {
                    let destination = player.handle_door_collision(&collided_doors);
                    if !destination.as_str().is_empty() {
                        return GameResult::GotoMap(destination);
                    }
                } else {
                    proof {
                        assert(door_result(
                            player.grounded,
                            player.looking_down,
                            collided_doors@,
                        ) =~= Seq::<char>::empty());
                    }
                }

                level.update(dt, player);
            },
            None => {},
        }

        GameResult::NoTransition
    }
}

impl Game {
    /// The drawing requests of one frame, in draw order: the current level's
    /// visible tiles, then its enemies, then the player — each only where it
    /// exists and its current clip is visible. The camera is one screen at
    /// the world origin.
    pub fn render(&self) -> (r: Result<Vec<DrawCommand>, crate::animate_sprite::AnimationLookupError>)
        requires
            self.wf(),
        ensures
            r is Ok,
            ({
                let camera = Rect {
                    x: 0,
                    y: 0,
                    width: SCREEN_WIDTH / SPRITE_SCALE,
                    height: SCREEN_HEIGHT / SPRITE_SCALE,
                };
                let level_part: Seq<DrawCommand> = match self.level {
                    Option::Some(l) => crate::level::layers_commands(
                        l,
                        camera,
                        l.layers@.len() as int,
                    ) + crate::level::enemies_commands(l.enemies@),
                    Option::None => Seq::empty(),
                };
                let player_part: Seq<DrawCommand> = match self.player {
                    Option::Some(p) => {
                        let clip = p.animation.reg()[p.animation.current_animation@];
                        let frame = clip.frames@[clip.frame_index as int];
                        if clip.visible {
                            seq![
                                DrawCommand {
                                    image: p.animation.name,
                                    source: frame,
                                    dest: crate::sprite::scaled_dest(
                                        p.x as int,
                                        p.y as int,
                                        frame.width as int,
                                        frame.height as int,
                                    ),
                                },
                            ]
                        } else {
                            Seq::empty()
                        }
                    },
                    Option::None => Seq::empty(),
                };
                r.unwrap()@ == level_part + player_part
            }),
    {
        let camera = Rect {
            x: 0,
            y: 0,
            width: SCREEN_WIDTH / SPRITE_SCALE,
            height: SCREEN_HEIGHT / SPRITE_SCALE,
        };
        let mut cmds: Vec<DrawCommand> = Vec::new();
        match &self.level {
            Some(level) => {
                let mut map_cmds = level.render(&camera);
                let mut enemy_cmds = level.render_enemies();
                cmds.append(&mut map_cmds);
                cmds.append(&mut enemy_cmds);
            },
            None => {},
        }
        match &self.player {
            Some(player) => {
                match player.render() {
                    Ok(Some(c)) => {
                        cmds.push(c);
                    },
                    Ok(None) => {},
                    Err(e) => {
                        proof {
                            assert(false);
                        }
                        return Err(e);
                    },
                }
            },
            None => {},
        }
        proof {
            let camera_s = Rect {
                x: 0,
                y: 0,
                width: SCREEN_WIDTH / SPRITE_SCALE,
                height: SCREEN_HEIGHT / SPRITE_SCALE,
            };
            assert(camera == camera_s);
            let ghost level_part: Seq<DrawCommand> = if self.level is Some {
                let l = self.level.unwrap();
                crate::level::layers_commands(l, camera_s, l.layers@.len() as int)
                    + crate::level::enemies_commands(l.enemies@)
            } else {
                Seq::empty()
            };
            let ghost player_part: Seq<DrawCommand> = if self.player is Some {
                let p = self.player.unwrap();
                let clip = p.animation.reg()[p.animation.current_animation@];
                let frame = clip.frames@[clip.frame_index as int];
                if clip.visible {
                    seq![
                        DrawCommand {
                            image: p.animation.name,
                            source: frame,
                            dest: crate::sprite::scaled_dest(
                                p.x as int,
                                p.y as int,
                                frame.width as int,
                                frame.height as int,
                            ),
                        },
                    ]
                } else {
                    Seq::empty()
                }
            } else {
                Seq::empty()
            };
            assert(cmds@ =~= level_part + player_part);
        }
        Ok(cmds)
    }
}

} // verus!

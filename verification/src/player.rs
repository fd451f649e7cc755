use crate::animate_sprite::{switch_clip, AnimateSprite, AnimationLookupError};
use crate::animation::clip_tick;
use crate::collision::{resolve_side, resolved_side, Sides};
use crate::door::Door;
use crate::geometry::{
    clamp_pos, clamp_to_world, scaled_delta, scaled_delta_i64, Rect, MAX_TICK, POS_LIMIT,
};
use crate::level::{slope_snap_y, Slope};
use crate::sprite::DrawCommand;
use vstd::prelude::*;

verus! {

/// The facing and look state of an entity.
#[derive(Clone, Copy, PartialEq, Eq, Structural, Debug)]
pub enum Direction {
    Up,
    Down,
    Left,
    Right,
    IdleLeft,
    IdleRight,
    Idle,
}

/// The direction of travel that presents the given contact side.
pub open spec fn direction_of_side(side: Sides) -> Direction {
    match side {
        Sides::Bottom => Direction::Down,
        Sides::Top => Direction::Up,
        Sides::Left => Direction::Left,
        Sides::Right => Direction::Right,
        Sides::NoContact => Direction::Idle,
    }
}

impl From<Sides> for Direction {
    fn from(side: Sides) -> (r: Direction)
        ensures
            r == direction_of_side(side),
    {
        match side {
            Sides::Bottom => Direction::Down,
            Sides::Top => Direction::Up,
            Sides::Left => Direction::Left,
            Sides::Right => Direction::Right,
            Sides::NoContact => Direction::Idle,
        }
    }
}

impl vstd::std_specs::convert::FromSpecImpl<Sides> for Direction {
    open spec fn obeys_from_spec() -> bool {
        true
    }

    open spec fn from_spec(side: Sides) -> Direction {
        direction_of_side(side)
    }
}

/// Downward acceleration added to the vertical velocity each tick, in
/// thousandths of a pixel per millisecond.
pub const GRAVITY: i32 = 20;

/// The fall-speed cap, in thousandths of a pixel per millisecond.
pub const GRAVITY_CAP: i32 = 800;

/// Horizontal walking speed, in thousandths of a pixel per millisecond.
pub const WALK_SPEED: i32 = 200;

/// Upward impulse a jump gives, in thousandths of a pixel per millisecond.
pub const JUMP_SPPED: i32 = 400;

/// Largest velocity magnitude an entity may carry, in thousandths of a pixel
/// per millisecond.
pub const VEL_LIMIT: i32 = 1_000_000;

/// The kinematic portion of an entity's state, on unbounded integers.
pub ghost struct KinState {
    pub x: int,
    pub y: int,
    pub dx: int,
    pub dy: int,
    pub grounded: bool,
    pub facing: Direction,
}

/// One tick of free motion: the horizontal position advances by the covered
/// distance, the vertical velocity gains gravity up to the fall-speed cap,
/// and the vertical position advances at the new velocity. Positions are
/// clamped into the world's coordinate range.
pub open spec fn update_kin(k: KinState, dt: int) -> KinState {
    let x2 = clamp_pos(k.x + scaled_delta(k.dx, dt));
    let dy2 = if k.dy + GRAVITY <= GRAVITY_CAP {
        k.dy + GRAVITY
    } else {
        GRAVITY_CAP as int
    };
    let y2 = clamp_pos(k.y + scaled_delta(dy2, dt));
    KinState { x: x2, y: y2, dx: k.dx, dy: dy2, grounded: k.grounded, facing: k.facing }
}

/// The response to one colliding block, for a mover whose hitbox is `w` by
/// `h`: the contact side with the smallest penetration decides whether the
/// mover is snapped below, above, or beside the block; a ceiling contact
/// while grounded also stops and nudges the mover one pixel backward along
/// its facing, to free it from a corner snag.
pub open spec fn collide_step(k: KinState, w: int, h: int, other: Rect) -> KinState {
    let moving = Rect { x: k.x as i32, y: k.y as i32, width: w as u32, height: h as u32 };
    match resolved_side(moving, other) {
        Sides::Top => {
            let nudged = if k.facing == Direction::Right {
                k.x - 1
            } else {
                k.x + 1
            };
            if k.grounded {
                KinState {
                    x: clamp_pos(nudged),
                    y: clamp_pos(other.y + other.height),
                    dx: 0,
                    dy: 0,
                    grounded: k.grounded,
                    facing: k.facing,
                }
            } else {
                KinState {
                    x: k.x,
                    y: clamp_pos(other.y + other.height),
                    dx: k.dx,
                    dy: 0,
                    grounded: k.grounded,
                    facing: k.facing,
                }
            }
        },
        Sides::Bottom => KinState {
            x: k.x,
            y: clamp_pos(other.y - h),
            dx: k.dx,
            dy: 0,
            grounded: true,
            facing: k.facing,
        },
        Sides::Left => KinState {
            x: clamp_pos(other.x + other.width),
            y: k.y,
            dx: 0,
            dy: k.dy,
            grounded: k.grounded,
            facing: k.facing,
        },
        Sides::Right => KinState {
            x: clamp_pos(other.x - w),
            y: k.y,
            dx: 0,
            dy: k.dy,
            grounded: k.grounded,
            facing: k.facing,
        },
        Sides::NoContact => k,
    }
}

/// The response to a list of colliding blocks, applied in order.
pub open spec fn collide_all(k: KinState, w: int, h: int, others: Seq<Rect>) -> KinState
    decreases others.len(),
{
    if others.len() == 0 {
        k
    } else {
        collide_step(collide_all(k, w, h, others.drop_last()), w, h, others.last())
    }
}

/// The response to one colliding slope, for a mover whose hitbox center is at
/// the doubled horizontal position `cx2` and whose hitbox is `h` tall: while
/// grounded, the vertical position snaps so the hitbox bottom sits on the
/// ramp surface, a fixed small bias above it; the mover is grounded either
/// way.
pub open spec fn slope_step(k: KinState, cx2: int, h: int, slope: Slope) -> KinState {
    let y2 = if k.grounded {
        clamp_pos(slope_snap_y(slope, cx2, h))
    } else {
        k.y
    };
    KinState { x: k.x, y: y2, dx: k.dx, dy: k.dy, grounded: true, facing: k.facing }
}

/// The response to a list of colliding slopes, applied in order.
pub open spec fn slope_all(k: KinState, cx2: int, h: int, slopes: Seq<Slope>) -> KinState
    decreases slopes.len(),
{
    if slopes.len() == 0 {
        k
    } else {
        slope_step(slope_all(k, cx2, h, slopes.drop_last()), cx2, h, slopes.last())
    }
}

/// The destination a list of overlapping doors yields: the last door's
/// destination when the player is grounded and looking down, nothing
/// otherwise.
pub open spec fn door_result(grounded: bool, looking_down: bool, doors: Seq<Door>) -> Seq<char> {
    if grounded && looking_down && doors.len() > 0 {
        doors.last().destination@
    } else {
        Seq::<char>::empty()
    }
}

/// The clip names the player's state machine selects among.
pub open spec fn has_player_clips(a: AnimateSprite) -> bool {
    &&& a.has_clip("idle_left"@)
    &&& a.has_clip("idle_right"@)
    &&& a.has_clip("move_left"@)
    &&& a.has_clip("move_right"@)
    &&& a.has_clip("idle_left_up"@)
    &&& a.has_clip("idle_right_up"@)
    &&& a.has_clip("move_left_up"@)
    &&& a.has_clip("move_right_up"@)
    &&& a.has_clip("look_down_left"@)
    &&& a.has_clip("look_down_right"@)
    &&& a.has_clip("look_backwards_left"@)
    &&& a.has_clip("look_backwards_right"@)
}

/// Whether the registry holds, under the given name, a looping clip of
/// `columns` frames of 150 milliseconds each, tiled from `origin`, rewound
/// and visible.
pub open spec fn clip_is(a: AnimateSprite, name: Seq<char>, origin: Rect, columns: int) -> bool {
    let c = a.reg()[name];
    &&& c.frames@ == crate::animation::grid_frames(origin, columns, 1)
    &&& c.frame_duration == 150
    &&& !c.play_once
    &&& c.frame_index == 0
    &&& c.time_elapsed == 0
    &&& c.visible
}

/// What a freshly spawned player at `(x, y)` looks like: at rest, airborne,
/// facing left, two of three health points, with the full clip registry and
/// the left walking clip selected.
pub open spec fn fresh_player_at(p: Player, x: int, y: int) -> bool {
    &&& p.x == x
    &&& p.y == y
    &&& p.dx == 0
    &&& p.dy == 0
    &&& p.facing == Direction::IdleLeft
    &&& !p.grounded
    &&& p.collision == (Rect { x: 0, y: 0, width: 16, height: 16 })
    &&& !p.looking_up
    &&& !p.looking_down
    &&& p.max_health == 3
    &&& p.current_health == 2
    &&& p.animation.name@ == "player"@
    &&& p.animation.current_animation@ == "move_left"@
    &&& has_player_clips(p.animation)
    &&& clip_is(p.animation, "idle_left"@, Rect { x: 0, y: 0, width: 16, height: 16 }, 1)
    &&& clip_is(p.animation, "idle_right"@, Rect { x: 0, y: 16, width: 16, height: 16 }, 1)
    &&& clip_is(p.animation, "move_left"@, Rect { x: 0, y: 0, width: 16, height: 16 }, 3)
    &&& clip_is(p.animation, "move_right"@, Rect { x: 0, y: 16, width: 16, height: 16 }, 3)
    &&& clip_is(p.animation, "idle_left_up"@, Rect { x: 48, y: 0, width: 16, height: 16 }, 1)
    &&& clip_is(p.animation, "idle_right_up"@, Rect { x: 48, y: 16, width: 16, height: 16 }, 1)
    &&& clip_is(p.animation, "move_left_up"@, Rect { x: 48, y: 0, width: 16, height: 16 }, 3)
    &&& clip_is(p.animation, "move_right_up"@, Rect { x: 48, y: 16, width: 16, height: 16 }, 3)
    &&& clip_is(p.animation, "look_down_left"@, Rect { x: 96, y: 0, width: 16, height: 16 }, 1)
    &&& clip_is(p.animation, "look_down_right"@, Rect { x: 96, y: 16, width: 16, height: 16 }, 1)
    &&& clip_is(
        p.animation,
        "look_backwards_left"@,
        Rect { x: 112, y: 0, width: 16, height: 16 },
        1,
    )
    &&& clip_is(
        p.animation,
        "look_backwards_right"@,
        Rect { x: 112, y: 16, width: 16, height: 16 },
        1,
    )
}

/// The player: position, velocity, facing and look state, grounded flag,
/// hitbox, health, and the clip registry that animates it.
pub struct Player {
    pub animation: AnimateSprite,
    pub x: i32,
    pub y: i32,
    pub dx: i32,
    pub dy: i32,
    pub facing: Direction,
    pub grounded: bool,
    pub collision: Rect,
    pub looking_up: bool,
    pub looking_down: bool,
    pub max_health: i32,
    pub current_health: i32,
}

impl Player {
    /// The kinematic portion of the player's state.
    pub open spec fn kin(self) -> KinState {
        KinState {
            x: self.x as int,
            y: self.y as int,
            dx: self.dx as int,
            dy: self.dy as int,
            grounded: self.grounded,
            facing: self.facing,
        }
    }

    /// The player is well formed when its position lies in the world, its
    /// velocities are bounded with the fall speed at or under the cap, its
    /// hitbox is well formed, and its clip registry holds every clip the
    /// state machine selects, the current one included.
    pub open spec fn wf(self) -> bool {
        &&& -POS_LIMIT <= self.x <= POS_LIMIT
        &&& -POS_LIMIT <= self.y <= POS_LIMIT
        &&& -VEL_LIMIT <= self.dx <= VEL_LIMIT
        &&& -VEL_LIMIT <= self.dy <= GRAVITY_CAP
        &&& self.collision.wf()
        &&& self.animation.wf()
        &&& has_player_clips(self.animation)
        &&& self.animation.has_clip(self.animation.current_animation@)
    }

    /// A freshly spawned player at the given position: at rest, ungrounded,
    /// facing left, with the full clip registry and the left walking clip
    /// selected.
    pub fn new(x: i32, y: i32) -> (r: Player)
        requires
            -POS_LIMIT <= x <= POS_LIMIT,
            -POS_LIMIT <= y <= POS_LIMIT,
        ensures
            r.wf(),
            fresh_player_at(r, x as int, y as int),
    {
        let mut animation = AnimateSprite::new("player".to_owned());
        animation.add_animation("idle_left".to_owned(), Rect::new(0, 0, 16, 16), 150, false, 1, 1);
        animation.add_animation("idle_right".to_owned(), Rect::new(0, 16, 16, 16), 150, false, 1, 1);
        animation.add_animation("move_left".to_owned(), Rect::new(0, 0, 16, 16), 150, false, 3, 1);
        animation.add_animation("move_right".to_owned(), Rect::new(0, 16, 16, 16), 150, false, 3, 1);
        animation.add_animation("idle_left_up".to_owned(), Rect::new(48, 0, 16, 16), 150, false, 1, 1);
        animation.add_animation("idle_right_up".to_owned(), Rect::new(48, 16, 16, 16), 150, false, 1, 1);
        animation.add_animation("move_left_up".to_owned(), Rect::new(48, 0, 16, 16), 150, false, 3, 1);
        animation.add_animation("move_right_up".to_owned(), Rect::new(48, 16, 16, 16), 150, false, 3, 1);
        animation.add_animation("look_down_left".to_owned(), Rect::new(96, 0, 16, 16), 150, false, 1, 1);
        animation.add_animation("look_down_right".to_owned(), Rect::new(96, 16, 16, 16), 150, false, 1, 1);
        animation.add_animation(
            "look_backwards_left".to_owned(),
            Rect::new(112, 0, 16, 16),
            150,
            false,
            1,
            1,
        );
        animation.add_animation(
            "look_backwards_right".to_owned(),
            Rect::new(112, 16, 16, 16),
            150,
            false,
            1,
            1,
        );
        animation.set_animation("move_left".to_owned());

        proof {
            reveal_strlit("idle_left");
            reveal_strlit("idle_right");
            reveal_strlit("move_left");
            reveal_strlit("move_right");
            reveal_strlit("idle_left_up");
            reveal_strlit("idle_right_up");
            reveal_strlit("move_left_up");
            reveal_strlit("move_right_up");
            reveal_strlit("look_down_left");
            reveal_strlit("look_down_right");
            reveal_strlit("look_backwards_left");
            reveal_strlit("look_backwards_right");
            assert("idle_left"@.len() == 9);
            assert("idle_right"@.len() == 10);
            assert("move_left"@.len() == 9);
            assert("move_right"@.len() == 10);
            assert("idle_left_up"@.len() == 12);
            assert("idle_right_up"@.len() == 13);
            assert("move_left_up"@.len() == 12);
            assert("move_right_up"@.len() == 13);
            assert("look_down_left"@.len() == 14);
            assert("look_down_right"@.len() == 15);
            assert("look_backwards_left"@.len() == 19);
            assert("look_backwards_right"@.len() == 20);
            assert("idle_left"@[0] == 'i' && "move_left"@[0] == 'm');
            assert("idle_right"@[0] == 'i' && "move_right"@[0] == 'm');
            assert("idle_left_up"@[0] == 'i' && "move_left_up"@[0] == 'm');
            assert("idle_right_up"@[0] == 'i' && "move_right_up"@[0] == 'm');
        }

        Player {
            animation,
            x,
            y,
            dx: 0,
            dy: 0,
            facing: Direction::IdleLeft,
            grounded: false,
            collision: Rect::new(0, 0, 16, 16),
            looking_up: false,
            looking_down: false,
            max_health: 3,
            current_health: 2,
        }
    }

    /// Brings the player to a full stop.
    pub fn stop_moving(&mut self)
        ensures
            *final(self) == (Player { dx: 0, dy: 0, ..*old(self) }),
    {
        self.dx = 0;
        self.dy = 0;
    }

    /// Starts a jump: only a grounded player leaves the ground, with the
    /// fixed upward impulse, and is airborne from that moment on.
    pub fn jump(&mut self)
        ensures
            old(self).grounded ==> *final(self) == (Player {
                dy: (-JUMP_SPPED) as i32,
                grounded: false,
                ..*old(self)
            }),
            !old(self).grounded ==> *final(self) == *old(self),
    {
        if self.grounded {
            self.dy = -JUMP_SPPED;
            self.grounded = false;
        }
    }

    /// One tick of free motion and animation: integrates the position,
    /// applies gravity up to the cap, advances the current clip, and re-syncs
    /// the hitbox onto the new position.
    pub fn update(&mut self, dt: u32)
        requires
            old(self).wf(),
            dt <= MAX_TICK,
        ensures
            final(self).wf(),
            final(self).kin() == update_kin(old(self).kin(), dt as int),
            final(self).collision == (Rect {
                x: final(self).x,
                y: final(self).y,
                width: old(self).collision.width,
                height: old(self).collision.height,
            }),
            final(self).looking_up == old(self).looking_up,
            final(self).looking_down == old(self).looking_down,
            final(self).max_health == old(self).max_health,
            final(self).current_health == old(self).current_health,
            final(self).animation.name == old(self).animation.name,
            final(self).animation.current_animation == old(self).animation.current_animation,
            final(self).animation.reg() =~= old(self).animation.reg().insert(
                old(self).animation.current_animation@,
                clip_tick(
                    old(self).animation.reg()[old(self).animation.current_animation@],
                    dt,
                ),
            ),
    {
        self.x = clamp_to_world(self.x as i64 + scaled_delta_i64(self.dx, dt));
        if self.dy + GRAVITY <= GRAVITY_CAP {
            self.dy = self.dy + GRAVITY;
        } else {
            self.dy = GRAVITY_CAP;
        }
        self.y = clamp_to_world(self.y as i64 + scaled_delta_i64(self.dy, dt));

        match self.animation.update(dt) {
            Ok(()) => {},
            Err(_) => {
                proof {
                    assert(false);
                }
            },
        }
        self.collision.x = self.x;
        self.collision.y = self.y;
    }

    /// Starts walking left: refused while crouched on the ground; otherwise
    /// sets the leftward walking speed, selects the left walking clip unless
    /// the player is looking up, and faces left.
    pub fn move_left(&mut self)
        requires
            old(self).wf(),
        ensures
            final(self).wf(),
            old(self).looking_down && old(self).grounded ==> *final(self) == *old(self),
            !(old(self).looking_down && old(self).grounded) ==> {
                &&& final(self).dx == -WALK_SPEED
                &&& final(self).facing == Direction::Left
                &&& final(self).animation.current_animation@ == if old(self).looking_up {
                    old(self).animation.current_animation@
                } else {
                    "move_left"@
                }
                &&& final(self).animation.reg() == if old(self).looking_up {
                    old(self).animation.reg()
                } else {
                    switch_clip(
                        old(self).animation.reg(),
                        old(self).animation.current_animation@,
                        "move_left"@,
                    )
                }
                &&& final(self).animation.name == old(self).animation.name
                &&& *final(self) == (Player {
                    dx: final(self).dx,
                    facing: final(self).facing,
                    animation: final(self).animation,
                    ..*old(self)
                })
            },
    {
        if self.looking_down && self.grounded {
            return ;
        }
        self.dx = -WALK_SPEED;
        if !self.looking_up {
            self.animation.set_animation("move_left".to_owned());
        }
        self.facing = Direction::Left;
    }

    /// Starts walking right, the mirror of `move_left`.
    pub fn move_right(&mut self)
        requires
            old(self).wf(),
        ensures
            final(self).wf(),
            old(self).looking_down && old(self).grounded ==> *final(self) == *old(self),
            !(old(self).looking_down && old(self).grounded) ==> {
                &&& final(self).dx == WALK_SPEED
                &&& final(self).facing == Direction::Right
                &&& final(self).animation.current_animation@ == if old(self).looking_up {
                    old(self).animation.current_animation@
                } else {
                    "move_right"@
                }
                &&& final(self).animation.reg() == if old(self).looking_up {
                    old(self).animation.reg()
                } else {
                    switch_clip(
                        old(self).animation.reg(),
                        old(self).animation.current_animation@,
                        "move_right"@,
                    )
                }
                &&& final(self).animation.name == old(self).animation.name
                &&& *final(self) == (Player {
                    dx: final(self).dx,
                    facing: final(self).facing,
                    animation: final(self).animation,
                    ..*old(self)
                })
            },
    {
        if self.looking_down && self.grounded {
            return ;
        }
        self.dx = WALK_SPEED;
        if !self.looking_up {
            self.animation.set_animation("move_right".to_owned());
        }
        self.facing = Direction::Right;
    }

    /// Sets the horizontal speed to the walking speed scaled by the given
    /// multiplier; refused while crouched on the ground and moving left.
    pub fn move_vector(&mut self, vector: (i32, i32))
        requires
            old(self).wf(),
            -5000 <= vector.0 <= 5000,
        ensures
            final(self).wf(),
            vector.0 < 0 && old(self).looking_down && old(self).grounded ==> *final(self) == *old(
                self,
            ),
            !(vector.0 < 0 && old(self).looking_down && old(self).grounded) ==> *final(self)
                == (Player { dx: (WALK_SPEED * vector.0) as i32, ..*old(self) }),
    {
        if vector.0 < 0 && self.looking_down && self.grounded {
            return ;
        }
        self.dx = WALK_SPEED * vector.0;
    }

    /// Stops horizontal motion; unless the player is looking up or down, the
    /// idle clip matching the facing is selected.
    pub fn stop(&mut self)
        requires
            old(self).wf(),
        ensures
            final(self).wf(),
            final(self).dx == 0,
            final(self).animation.current_animation@ == if !old(self).looking_up && !old(
                self,
            ).looking_down {
                if old(self).facing == Direction::Right {
                    "idle_right"@
                } else {
                    "idle_left"@
                }
            } else {
                old(self).animation.current_animation@
            },
            final(self).animation.reg() == if !old(self).looking_up && !old(self).looking_down {
                switch_clip(
                    old(self).animation.reg(),
                    old(self).animation.current_animation@,
                    if old(self).facing == Direction::Right {
                        "idle_right"@
                    } else {
                        "idle_left"@
                    },
                )
            } else {
                old(self).animation.reg()
            },
            final(self).animation.name == old(self).animation.name,
            *final(self) == (Player { dx: 0, animation: final(self).animation, ..*old(self) }),
    {
        self.dx = 0;
        if !self.looking_up && !self.looking_down {
            if self.facing == Direction::Right {
                self.animation.set_animation("idle_right".to_owned());
            } else {
                self.animation.set_animation("idle_left".to_owned());
            }
        }
    }

    /// Resolves every colliding block in order, snapping position and
    /// stopping velocity per contact side, then re-syncs the hitbox onto the
    /// final position.
    pub fn handle_tile_collision(&mut self, others: &Vec<Rect>)
        requires
            old(self).wf(),
        ensures
            final(self).wf(),
            final(self).kin() == collide_all(
                old(self).kin(),
                old(self).collision.width as int,
                old(self).collision.height as int,
                others@,
            ),
            final(self).collision == (Rect {
                x: final(self).x,
                y: final(self).y,
                width: old(self).collision.width,
                height: old(self).collision.height,
            }),
            final(self).looking_up == old(self).looking_up,
            final(self).looking_down == old(self).looking_down,
            final(self).max_health == old(self).max_health,
            final(self).current_health == old(self).current_health,
            final(self).animation == old(self).animation,
    {
        let w = self.collision.width();
        let h = self.collision.height();
        let n = others.len();
        for idx in 0..n
            invariant
                n == others@.len(),
                w == old(self).collision.width,
                h == old(self).collision.height,
                self.collision == old(self).collision,
                self.animation == old(self).animation,
                self.looking_up == old(self).looking_up,
                self.looking_down == old(self).looking_down,
                self.max_health == old(self).max_health,
                self.current_health == old(self).current_health,
                old(self).wf(),
                -POS_LIMIT <= self.x <= POS_LIMIT,
                -POS_LIMIT <= self.y <= POS_LIMIT,
                -VEL_LIMIT <= self.dx <= VEL_LIMIT,
                -VEL_LIMIT <= self.dy <= GRAVITY_CAP,
                self.kin() == collide_all(old(self).kin(), w as int, h as int, others@.take(
                    idx as int,
                )),
        {
            let other = others[idx];
            let moving = Rect { x: self.x, y: self.y, width: w, height: h };
            let side = resolve_side(&moving, &other);
            let ghost k_before = self.kin();
            match side {
                Sides::Top => {
                    self.dy = 0;
                    self.y = clamp_to_world(other.y as i64 + other.height as i64);
                    if self.grounded {
                        self.dx = 0;
                        if self.facing == Direction::Right {
                            self.x = clamp_to_world(self.x as i64 - 1);
                        } else {
                            self.x = clamp_to_world(self.x as i64 + 1);
                        }
                    }
                },
                Sides::Bottom => {
                    self.y = clamp_to_world(other.y as i64 - h as i64);
                    self.dy = 0;
                    self.grounded = true;
                },
                Sides::Left => {
                    self.x = clamp_to_world(other.x as i64 + other.width as i64);
                    self.dx = 0;
                },
                Sides::Right => {
                    self.x = clamp_to_world(other.x as i64 - w as i64);
                    self.dx = 0;
                },
                Sides::NoContact => {},
            }
            proof {
                assert(self.kin() == collide_step(k_before, w as int, h as int, other));
                assert(others@.take(idx + 1).drop_last() =~= others@.take(idx as int));
                assert(others@.take(idx + 1).last() == others@[idx as int]);
            }
        }
        proof {
            assert(others@.take(n as int) =~= others@);
        }
        self.collision.x = self.x;
        self.collision.y = self.y;
    }

    /// Resolves every colliding slope in order: while grounded, the player's
    /// vertical position snaps so the hitbox bottom sits on the ramp surface
    /// under the hitbox center; the player is grounded afterwards either way.
    /// The hitbox itself is re-synced on the next `update`.
    pub fn handle_slope_collision(&mut self, slopes: &Vec<Slope>)
        requires
            old(self).wf(),
            forall|i: int| 0 <= i < slopes@.len() ==> (#[trigger] slopes@[i]).wf(),
        ensures
            final(self).wf(),
            final(self).kin() == slope_all(
                old(self).kin(),
                old(self).collision.spec_center_x2(),
                old(self).collision.height as int,
                slopes@,
            ),
            *final(self) == (Player {
                y: final(self).y,
                grounded: final(self).grounded,
                ..*old(self)
            }),
    {
        let cx2: i64 = self.collision.center_x2();
        let h = self.collision.height();
        let n = slopes.len();
        for idx in 0..n
            invariant
                n == slopes@.len(),
                forall|i: int| 0 <= i < slopes@.len() ==> (#[trigger] slopes@[i]).wf(),
                cx2 == old(self).collision.spec_center_x2(),
                -0x1_0000_0000 <= cx2 <= 0x1_0000_0000,
                h == old(self).collision.height,
                old(self).wf(),
                -POS_LIMIT <= self.y <= POS_LIMIT,
                self.kin() == slope_all(old(self).kin(), cx2 as int, h as int, slopes@.take(
                    idx as int,
                )),
                *self == (Player {
                    y: self.y,
                    grounded: self.grounded,
                    ..*old(self)
                }),
        {
            let slope = slopes[idx];
            let ghost k_before = self.kin();
            if self.grounded {
                let sy = slope.snap_y(cx2, h);
                self.y = clamp_to_world(sy);
            }
            self.grounded = true;
            proof {
                assert(self.kin() == slope_step(k_before, cx2 as int, h as int, slope));
                assert(slopes@.take(idx + 1).drop_last() =~= slopes@.take(idx as int));
                assert(slopes@.take(idx + 1).last() == slopes@[idx as int]);
            }
        }
        proof {
            assert(slopes@.take(n as int) =~= slopes@);
        }
    }

    /// The door transition the overlapping doors yield this tick: the last
    /// door's destination when the player is grounded and looking down, the
    /// empty string otherwise.
    pub fn handle_door_collision(&mut self, doors: &Vec<Door>) -> (r: String)
        ensures
            *final(self) == *old(self),
            r@ == door_result(old(self).grounded, old(self).looking_down, doors@),
    {
        let mut level = String::new();
        let n = doors.len();
        for idx in 0..n
            invariant
                n == doors@.len(),
                *self == *old(self),
                level@ == door_result(self.grounded, self.looking_down, doors@.take(idx as int)),
        {
            if self.grounded && self.looking_down {
                level = doors[idx].destination.clone();
            }
            proof {
                assert(doors@.take(idx + 1).last() == doors@[idx as int]);
            }
        }
        proof {
            assert(doors@.take(n as int) =~= doors@);
        }
        level
    }

    /// Starts looking up, selecting the matching upward clip for the current
    /// facing and motion.
    pub fn look_up(&mut self)
        requires
            old(self).wf(),
        ensures
            final(self).wf(),
            final(self).looking_up,
            final(self).animation.current_animation@ == if old(self).dx == 0 {
                if old(self).facing == Direction::Right {
                    "idle_right_up"@
                } else {
                    "idle_left_up"@
                }
            } else {
                if old(self).facing == Direction::Right {
                    "move_right_up"@
                } else {
                    "move_left_up"@
                }
            },
            final(self).animation.reg() == switch_clip(
                old(self).animation.reg(),
                old(self).animation.current_animation@,
                final(self).animation.current_animation@,
            ),
            final(self).animation.name == old(self).animation.name,
            *final(self) == (Player {
                looking_up: true,
                animation: final(self).animation,
                ..*old(self)
            }),
    {
        self.looking_up = true;
        if self.dx == 0 {
            if self.facing == Direction::Right {
                self.animation.set_animation("idle_right_up".to_owned());
            } else {
                self.animation.set_animation("idle_left_up".to_owned());
            }
        } else {
            if self.facing == Direction::Right {
                self.animation.set_animation("move_right_up".to_owned());
            } else {
                self.animation.set_animation("move_left_up".to_owned());
            }
        }
    }

    /// Stops looking up.
    pub fn stop_looking_up(&mut self)
        ensures
            *final(self) == (Player { looking_up: false, ..*old(self) }),
    {
        self.looking_up = false;
    }

    /// Starts looking down — or, on the ground, turning around to interact —
    /// selecting the matching clip for the current facing.
    pub fn look_down(&mut self)
        requires
            old(self).wf(),
        ensures
            final(self).wf(),
            final(self).looking_down,
            final(self).animation.current_animation@ == if old(self).grounded {
                if old(self).facing == Direction::Right {
                    "look_backwards_right"@
                } else {
                    "look_backwards_left"@
                }
            } else {
                if old(self).facing == Direction::Right {
                    "look_down_right"@
                } else {
                    "look_down_left"@
                }
            },
            final(self).animation.reg() == switch_clip(
                old(self).animation.reg(),
                old(self).animation.current_animation@,
                final(self).animation.current_animation@,
            ),
            final(self).animation.name == old(self).animation.name,
            *final(self) == (Player {
                looking_down: true,
                animation: final(self).animation,
                ..*old(self)
            }),
    {
        self.looking_down = true;
        if self.grounded {
            if self.facing == Direction::Right {
                self.animation.set_animation("look_backwards_right".to_owned());
            } else {
                self.animation.set_animation("look_backwards_left".to_owned());
            }
        } else {
            if self.facing == Direction::Right {
                self.animation.set_animation("look_down_right".to_owned());
            } else {
                self.animation.set_animation("look_down_left".to_owned());
            }
        }
    }

    /// Stops looking down or interacting.
    pub fn stop_looking_down(&mut self)
        ensures
            *final(self) == (Player { looking_down: false, ..*old(self) }),
    {
        self.looking_down = false;
    }

    /// The name of the image the player is drawn from.
    pub fn get_name(&self) -> (r: String)
        ensures
            r@ == "player"@,
    {
        "player".to_owned()
    }

    /// The drawing request that shows the player this tick, if its current
    /// clip is visible.
    pub fn render(&self) -> (r: Result<Option<DrawCommand>, AnimationLookupError>)
        requires
            self.wf(),
        ensures
            r is Ok,
            ({
                let clip = self.animation.reg()[self.animation.current_animation@];
                let frame = clip.frames@[clip.frame_index as int];
                match r.unwrap() {
                    Some(cmd) => {
                        &&& clip.visible
                        &&& cmd.image == self.animation.name
                        &&& cmd.source == frame
                        &&& cmd.dest == crate::sprite::scaled_dest(
                            self.x as int,
                            self.y as int,
                            frame.width as int,
                            frame.height as int,
                        )
                    },
                    None => !clip.visible,
                }
            }),
    {
        self.animation.render(self.x, self.y)
    }
}

/// Gravity is monotone up to the cap: each tick of free motion raises the
/// fall speed by exactly the gravity increment until the cap is reached, and
/// a fall speed at the cap never exceeds it.
pub proof fn lemma_gravity_monotone(k: KinState, dt: u32)
    requires
        k.dy <= GRAVITY_CAP,
    ensures
        update_kin(k, dt as int).dy >= k.dy,
        update_kin(k, dt as int).dy <= GRAVITY_CAP,
        k.dy + GRAVITY <= GRAVITY_CAP ==> update_kin(k, dt as int).dy == k.dy + GRAVITY,
{
}

} // verus!

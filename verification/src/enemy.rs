use crate::animate_sprite::{switch_clip, AnimateSprite, AnimationLookupError};
use crate::animation::clip_tick;
use crate::geometry::{clamp_pos, clamp_to_world, scaled_delta, scaled_delta_i64, Rect, MAX_TICK, POS_LIMIT};
use crate::player::{Direction, Player, VEL_LIMIT};
use crate::sprite::DrawCommand;
use vstd::prelude::*;

verus! {

#[verifier::external_type_specification]
#[verifier::external_body]
pub struct ExUuid(uuid::Uuid);

/// Relies on uuid::Uuid::new_v4: draws a fresh random identifier. Nothing is
/// promised of the value; every enemy simply carries one.
#[verifier::external_body]
fn fresh_enemy_id() -> uuid::Uuid {
    uuid::Uuid::new_v4()
}

/// Vertical speed of a bat's oscillation, in thousandths of a pixel per
/// millisecond.
pub const BAT_SPEED: i32 = 80;

/// Half the height of the band a bat oscillates in, in pixels.
pub const BAT_RANGE: i32 = 20;

/// The two flight clips a bat switches between.
pub open spec fn has_bat_clips(a: AnimateSprite) -> bool {
    &&& a.has_clip("fly_left"@)
    &&& a.has_clip("fly_right"@)
}

/// A bat: oscillates vertically around its spawn height, flipping direction
/// at each bound of the band, and faces the player, purely reactively.
pub struct Bat {
    pub id: uuid::Uuid,
    pub animation: AnimateSprite,
    pub x: i32,
    pub y: i32,
    pub starting_x: i32,
    pub starting_y: i32,
    pub should_move_up: bool,
    pub dx: i32,
    pub dy: i32,
    pub facing: Direction,
    pub collision: Rect,
}

/// How one tick transforms a bat: it drifts up or down at the fixed speed,
/// flips its vertical direction once it leaves the band around its spawn
/// height, turns toward the player, selects the matching flight clip, and
/// advances that clip.
pub open spec fn bat_stepped(b: Bat, b2: Bat, dt: u32, player_x: int) -> bool {
    let dy2: int = if b.should_move_up {
        -BAT_SPEED as int
    } else {
        BAT_SPEED as int
    };
    let x2 = clamp_pos(b.x + scaled_delta(b.dx as int, dt as int));
    let y2 = clamp_pos(b.y + scaled_delta(dy2, dt as int));
    let flipped = y2 > b.starting_y + BAT_RANGE || y2 < b.starting_y - BAT_RANGE;
    let facing2 = if player_x > x2 {
        Direction::Right
    } else {
        Direction::Left
    };
    let clip: Seq<char> = if facing2 == Direction::Right {
        "fly_right"@
    } else {
        "fly_left"@
    };
    &&& b2.x == x2
    &&& b2.y == y2
    &&& b2.dx == b.dx
    &&& b2.dy == dy2
    &&& b2.should_move_up == if flipped {
        !b.should_move_up
    } else {
        b.should_move_up
    }
    &&& b2.facing == facing2
    &&& b2.id == b.id
    &&& b2.starting_x == b.starting_x
    &&& b2.starting_y == b.starting_y
    &&& b2.collision == b.collision
    &&& b2.animation.name == b.animation.name
    &&& b2.animation.current_animation@ == clip
    &&& ({
        let reg1 = switch_clip(b.animation.reg(), b.animation.current_animation@, clip);
        b2.animation.reg() == reg1.insert(clip, clip_tick(reg1[clip], dt))
    })
}

impl Bat {
    /// A bat is well formed when its coordinates lie in the world, its
    /// velocities are bounded, and its clip registry is well formed.
    pub open spec fn wf(self) -> bool {
        &&& -POS_LIMIT <= self.x <= POS_LIMIT
        &&& -POS_LIMIT <= self.y <= POS_LIMIT
        &&& -POS_LIMIT <= self.starting_x <= POS_LIMIT
        &&& -POS_LIMIT <= self.starting_y <= POS_LIMIT
        &&& -VEL_LIMIT <= self.dx <= VEL_LIMIT
        &&& -VEL_LIMIT <= self.dy <= VEL_LIMIT
        &&& self.collision.wf()
        &&& self.animation.wf()
    }

    /// A bat spawned at the given position, with an empty clip registry: the
    /// spawner registers its flight clips before the first tick.
    pub fn new(x: i32, y: i32) -> (r: Bat)
        requires
            -POS_LIMIT <= x <= POS_LIMIT,
            -POS_LIMIT <= y <= POS_LIMIT,
        ensures
            r.wf(),
            r.x == x,
            r.y == y,
            r.starting_x == x,
            r.starting_y == y,
            !r.should_move_up,
            r.dx == 0,
            r.dy == 0,
            r.facing == Direction::Idle,
            r.collision == (Rect { x: 0, y: 0, width: 16, height: 16 }),
            r.animation.name@ == "enemy"@,
            r.animation.reg() == Map::<Seq<char>, crate::animation::Animation>::empty(),
            r.animation.current_animation@ == Seq::<char>::empty(),
    {
        let animation = AnimateSprite::new("enemy".to_owned());
        Bat {
            id: fresh_enemy_id(),
            animation,
            x,
            y,
            starting_x: x,
            starting_y: y,
            should_move_up: false,
            dx: 0,
            dy: 0,
            facing: Direction::Idle,
            collision: Rect::new(0, 0, 16, 16),
        }
    }

    /// Registers (or replaces) a flight clip.
    pub fn add_animation(
        &mut self,
        name: String,
        rect: Rect,
        duration: u32,
        play_once: bool,
        horizontal: usize,
        vertical: usize,
    )
        requires
            old(self).animation.wf(),
            rect.wf(),
            1 <= horizontal <= 1_000_000,
            1 <= vertical <= 1_000_000,
            rect.x + rect.width * horizontal <= POS_LIMIT,
            rect.y + rect.height * vertical <= POS_LIMIT,
        ensures
            final(self).animation.wf(),
            final(self).animation.reg().dom() =~= old(self).animation.reg().dom().insert(name@),
            final(self).animation.name == old(self).animation.name,
            final(self).animation.current_animation == old(self).animation.current_animation,
            *final(self) == (Bat { animation: final(self).animation, ..*old(self) }),
            forall|k: Seq<char>|
                old(self).animation.has_clip(k) && k != name@ ==> #[trigger] final(self).animation.reg()[k]
                    == old(self).animation.reg()[k],
            ({
                let c = final(self).animation.reg()[name@];
                &&& c.frames@ == crate::animation::grid_frames(
                    rect,
                    horizontal as int,
                    vertical as int,
                )
                &&& c.frame_index == 0
                &&& c.time_elapsed == 0
                &&& c.frame_duration == duration
                &&& c.play_once == play_once
                &&& c.visible
            }),
    {
        self.animation.add_animation(name, rect, duration, play_once, horizontal, vertical);
    }

    /// Makes the named clip current, rewinding it on a genuine switch.
    pub fn set_animation(&mut self, animation: String)
        requires
            old(self).animation.wf(),
        ensures
            final(self).animation.wf(),
            final(self).animation.current_animation@ == animation@,
            final(self).animation.reg() == switch_clip(
                old(self).animation.reg(),
                old(self).animation.current_animation@,
                animation@,
            ),
            final(self).animation.name == old(self).animation.name,
            *final(self) == (Bat { animation: final(self).animation, ..*old(self) }),
    {
        self.animation.set_animation(animation);
    }

    /// One tick of the bat: oscillation, direction flip at the band's bounds,
    /// turning toward the player, and clip advance.
    pub fn update(&mut self, dt: u32, player: &Player)
        requires
            old(self).wf(),
            has_bat_clips(old(self).animation),
            dt <= MAX_TICK,
        ensures
            final(self).wf(),
            has_bat_clips(final(self).animation),
            bat_stepped(*old(self), *final(self), dt, player.x as int),
    {
        self.dy = if self.should_move_up {
            -BAT_SPEED
        } else {
            BAT_SPEED
        };
        self.x = clamp_to_world(self.x as i64 + scaled_delta_i64(self.dx, dt));
        self.y = clamp_to_world(self.y as i64 + scaled_delta_i64(self.dy, dt));

        if self.y > self.starting_y + BAT_RANGE || self.y < self.starting_y - BAT_RANGE {
            self.should_move_up = !self.should_move_up;
        }

        self.facing = if player.x > self.x {
            Direction::Right
        } else {
            Direction::Left
        };
        if self.facing == Direction::Right {
            self.animation.set_animation("fly_right".to_owned());
        } else {
            self.animation.set_animation("fly_left".to_owned());
        }
        match self.animation.update(dt) {
            Ok(()) => {},
            Err(_) => {
                proof {
                    assert(false);
                }
            },
        }
    }

    /// The bat's hitbox at its current position.
    pub fn get_collision(&self) -> (r: Rect)
        ensures
            r == (Rect {
                x: self.x,
                y: self.y,
                width: self.collision.width,
                height: self.collision.height,
            }),
    {
        Rect::new(self.x, self.y, self.collision.width(), self.collision.height())
    }

    /// The name of the image the bat is drawn from.
    pub fn get_name(&self) -> (r: String)
        ensures
            r@ == "enemy"@,
    {
        "enemy".to_owned()
    }

    /// The drawing request that shows the bat this tick, if its current clip
    /// is visible.
    pub fn render(&self) -> (r: Result<Option<DrawCommand>, AnimationLookupError>)
        requires
            self.wf(),
        ensures
            r is Ok <==> self.animation.has_clip(self.animation.current_animation@),
            r is Ok ==> match r.unwrap() {
                Some(cmd) => bat_command(*self) == seq![cmd],
                None => bat_command(*self).len() == 0,
            },
    {
        self.animation.render(self.x, self.y)
    }
}

/// The drawing request a bat contributes: its current frame at its position,
/// scaled by the display factor; nothing while the clip is flagged invisible.
pub open spec fn bat_command(b: Bat) -> Seq<DrawCommand> {
    let clip = b.animation.reg()[b.animation.current_animation@];
    let frame = clip.frames@[clip.frame_index as int];
    if clip.visible {
        seq![
            DrawCommand {
                image: b.animation.name,
                source: frame,
                dest: crate::sprite::scaled_dest(
                    b.x as int,
                    b.y as int,
                    frame.width as int,
                    frame.height as int,
                ),
            },
        ]
    } else {
        Seq::empty()
    }
}

/// The drawing request an enemy of any kind contributes.
pub open spec fn enemy_command(e: Enemy) -> Seq<DrawCommand> {
    match e {
        Enemy::Bat(b) => bat_command(b),
    }
}

/// The enemy kinds a map can spawn, as a tagged union: new kinds are added as
/// new variants with their own behavior.
pub enum Enemy {
    Bat(Bat),
}

/// How one tick transforms an enemy of any kind.
pub open spec fn enemy_stepped(e: Enemy, e2: Enemy, dt: u32, player_x: int) -> bool {
    match (e, e2) {
        (Enemy::Bat(b), Enemy::Bat(b2)) => bat_stepped(b, b2, dt, player_x),
    }
}

impl Enemy {
    pub open spec fn wf(self) -> bool {
        match self {
            Enemy::Bat(b) => b.wf() && has_bat_clips(b.animation) && b.animation.has_clip(
                b.animation.current_animation@,
            ),
        }
    }

    /// One tick of the enemy's own behavior, reacting to the player.
    pub fn update(&mut self, dt: u32, player: &Player)
        requires
            old(self).wf(),
            dt <= MAX_TICK,
        ensures
            final(self).wf(),
            enemy_stepped(*old(self), *final(self), dt, player.x as int),
    {
        match self {
            Enemy::Bat(b) => b.update(dt, player),
        }
    }

    /// The enemy's hitbox at its current position.
    pub fn get_collision(&self) -> (r: Rect)
        ensures
            match self {
                Enemy::Bat(b) => r == (Rect {
                    x: b.x,
                    y: b.y,
                    width: b.collision.width,
                    height: b.collision.height,
                }),
            },
    {
        match self {
            Enemy::Bat(b) => b.get_collision(),
        }
    }

    /// The drawing request that shows the enemy this tick.
    pub fn render(&self) -> (r: Result<Option<DrawCommand>, AnimationLookupError>)
        requires
            self.wf(),
        ensures
            r is Ok,
            match r.unwrap() {
                Some(cmd) => enemy_command(*self) == seq![cmd],
                None => enemy_command(*self).len() == 0,
            },
    {
        match self {
            Enemy::Bat(b) => b.render(),
        }
    }
}

} // verus!

use crate::animate_sprite::{AnimateSprite, AnimationLookupError};
use crate::game::SPRITE_SCALE;
use crate::geometry::{Rect, POS_LIMIT};
use vstd::prelude::*;

verus! {

/// One drawing request for the external renderer: copy `source` out of the
/// named image onto `dest` on screen. The simulation core only ever produces
/// these; it never touches pixels.
#[derive(Clone, Debug)]
pub struct DrawCommand {
    pub image: String,
    pub source: Rect,
    pub dest: Rect,
}

/// The on-screen rectangle of a sprite of the given source size drawn at
/// world position `(x, y)`, blown up by the display scale.
pub open spec fn scaled_dest(x: int, y: int, width: int, height: int) -> Rect {
    Rect {
        x: (x * SPRITE_SCALE) as i32,
        y: (y * SPRITE_SCALE) as i32,
        width: (width * SPRITE_SCALE) as u32,
        height: (height * SPRITE_SCALE) as u32,
    }
}

/// Computes the scaled destination rectangle for a sprite at `(x, y)`.
pub fn make_scaled_dest(x: i32, y: i32, width: u32, height: u32) -> (r: Rect)
    requires
        -POS_LIMIT <= x <= POS_LIMIT,
        -POS_LIMIT <= y <= POS_LIMIT,
        width <= 1_000_000,
        height <= 1_000_000,
    ensures
        r == scaled_dest(x as int, y as int, width as int, height as int),
{
    Rect {
        x: x * SPRITE_SCALE as i32,
        y: y * SPRITE_SCALE as i32,
        width: width * SPRITE_SCALE,
        height: height * SPRITE_SCALE,
    }
}

/// A static sprite: one fixed source rectangle of a named image.
#[derive(Clone, Debug)]
pub struct Sprite {
    pub name: String,
    pub source_rect: Rect,
}

impl Sprite {
    pub fn new(name: String, src_x: i32, src_y: i32, width: u32, height: u32) -> (r: Sprite)
        ensures
            r.name == name,
            r.source_rect == (Rect { x: src_x, y: src_y, width, height }),
    {
        Sprite { name, source_rect: Rect::new(src_x, src_y, width, height) }
    }

    pub fn get_name(&self) -> (r: String)
        ensures
            r == self.name,
    {
        self.name.clone()
    }

    /// The drawing request that shows this sprite at world position `(x, y)`.
    pub fn render(&self, x: i32, y: i32) -> (r: DrawCommand)
        requires
            self.source_rect.wf(),
            -POS_LIMIT <= x <= POS_LIMIT,
            -POS_LIMIT <= y <= POS_LIMIT,
        ensures
            r.image == self.name,
            r.source == self.source_rect,
            r.dest == scaled_dest(
                x as int,
                y as int,
                self.source_rect.width as int,
                self.source_rect.height as int,
            ),
    {
        let dest = make_scaled_dest(x, y, self.source_rect.width(), self.source_rect.height());
        DrawCommand { image: self.name.clone(), source: self.source_rect, dest }
    }
}

impl AnimateSprite {
    /// The drawing request that shows the current frame of the current clip
    /// at world position `(x, y)`; none while a finished play-once clip is
    /// flagged invisible. Fails exactly when no clip of the current name is
    /// registered.
    pub fn render(&self, x: i32, y: i32) -> (r: Result<Option<DrawCommand>, AnimationLookupError>)
        requires
            self.wf(),
            -POS_LIMIT <= x <= POS_LIMIT,
            -POS_LIMIT <= y <= POS_LIMIT,
        ensures
            r is Ok <==> self.has_clip(self.current_animation@),
            r is Ok ==> ({
                let clip = self.reg()[self.current_animation@];
                match r.unwrap() {
                    Some(cmd) => {
                        &&& clip.visible
                        &&& cmd.image == self.name
                        &&& cmd.source == clip.frames@[clip.frame_index as int]
                        &&& cmd.dest == scaled_dest(
                            x as int,
                            y as int,
                            clip.frames@[clip.frame_index as int].width as int,
                            clip.frames@[clip.frame_index as int].height as int,
                        )
                    },
                    None => !clip.visible,
                }
            }),
    {
        let clip = match self.current_clip() {
            Ok(c) => c,
            Err(e) => {
                return Err(e);
            },
        };
        if clip.visible {
            proof {
                assert(clip.frames@[clip.frame_index as int].wf());
            }
            let frame = clip.get_current_frame();
            let dest = make_scaled_dest(x, y, frame.width(), frame.height());
            Ok(Some(DrawCommand { image: self.name.clone(), source: frame, dest }))
        } else {
            Ok(None)
        }
    }
}

} // verus!

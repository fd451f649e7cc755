use crate::geometry::MAX_TICK;
use vstd::prelude::*;

verus! {

/// One frame of a map tile's animation: the global id of the tile to show
/// and how long to show it, in milliseconds.
#[derive(Clone, Copy, PartialEq, Eq, Structural, Debug)]
pub struct Frame {
    pub tile_id: u32,
    pub duration: u32,
}

/// The playback state of one animated map tile: its frame cycle, the frame
/// currently shown, and the time remaining on that frame. The remainder is
/// spent before the index advances, and the cycle wraps to the first frame
/// after the last.
#[derive(Clone, Debug)]
pub struct AnimatedTile {
    pub animation: Vec<Frame>,
    pub index: usize,
    pub duration: i32,
}

/// One tick of an animated tile: once the remaining duration is spent the
/// frame index advances, taking the next frame's duration with it; the index
/// wraps to the first frame after the last.
pub open spec fn tile_tick(t: AnimatedTile, dt: u32) -> AnimatedTile {
    if t.duration <= 0 {
        if t.index == t.animation@.len() - 1 {
            AnimatedTile { animation: t.animation, index: 0, duration: t.duration }
        } else {
            AnimatedTile {
                animation: t.animation,
                index: (t.index + 1) as usize,
                duration: t.animation@[t.index + 1].duration as i32,
            }
        }
    } else {
        AnimatedTile { animation: t.animation, index: t.index, duration: (t.duration - dt) as i32 }
    }
}

impl AnimatedTile {
    /// An animated tile is well formed when it has at least one frame, its
    /// index points at a frame, and all durations are bounded so that the
    /// countdown arithmetic stays within `i32`.
    pub open spec fn wf(self) -> bool {
        &&& self.animation@.len() >= 1
        &&& self.index < self.animation@.len()
        &&& -(MAX_TICK as int) <= self.duration <= MAX_TICK
        &&& forall|i: int|
            0 <= i < self.animation@.len() ==> (#[trigger] self.animation@[i]).duration <= MAX_TICK
    }

    pub fn new(animation: Vec<Frame>, index: usize, duration: i32) -> (r: AnimatedTile)
        ensures
            r == (AnimatedTile { animation, index, duration }),
    {
        AnimatedTile { animation, index, duration }
    }

    /// Advances the cycle by `dt` milliseconds.
    pub fn update(&mut self, dt: u32)
        requires
            old(self).wf(),
            dt <= MAX_TICK,
        ensures
            *final(self) == tile_tick(*old(self), dt),
            final(self).wf(),
    {
        if self.duration <= 0 {
            if self.index == self.animation.len() - 1 {
                self.index = 0;
            } else {
                self.index = self.index + 1;
                self.duration = self.animation[self.index].duration as i32;
            }
        } else {
            self.duration = self.duration - dt as i32;
        }
    }

    /// The global tile id of the frame the cycle currently shows.
    pub fn get_current_frame(&self) -> (r: u32)
        requires
            self.wf(),
        ensures
            r == self.animation@[self.index as int].tile_id,
    {
        self.animation[self.index].tile_id
    }
}

} // verus!

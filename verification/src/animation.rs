use crate::geometry::{Rect, POS_LIMIT};
use vstd::prelude::*;

verus! {

/// A named sprite clip: an ordered list of source sub-rectangles of one
/// texture, played back one frame at a time. A play-once clip is flagged
/// invisible after its first full pass and then freezes; a looping clip wraps
/// around and keeps drawing.
#[derive(Clone, Debug)]
pub struct Animation {
    pub frames: Vec<Rect>,
    pub frame_index: usize,
    pub time_elapsed: u32,
    pub frame_duration: u32,
    pub play_once: bool,
    pub visible: bool,
}

/// The source rectangles of a `columns x rows` grid of fixed-size frames,
/// tiled row-major from the origin frame.
pub open spec fn grid_frames(rect: Rect, columns: int, rows: int) -> Seq<Rect> {
    Seq::new(
        (columns * rows) as nat,
        |i: int|
            Rect {
                x: (rect.x + rect.width * (i % columns)) as i32,
                y: (rect.y + rect.height * (i / columns)) as i32,
                width: rect.width,
                height: rect.height,
            },
    )
}

/// One tick of a clip: elapsed time accumulates until it exceeds the frame
/// duration, then the frame index advances, wrapping to the first frame at
/// the end; a play-once clip becomes invisible at the wrap and then freezes.
pub open spec fn clip_tick(a: Animation, dt: u32) -> Animation {
    if a.play_once && !a.visible {
        a
    } else {
        let elapsed = a.time_elapsed + dt;
        if elapsed > a.frame_duration {
            if a.frame_index + 1 >= a.frames@.len() {
                Animation {
                    frames: a.frames,
                    frame_index: 0,
                    time_elapsed: 0,
                    frame_duration: a.frame_duration,
                    play_once: a.play_once,
                    visible: !a.play_once,
                }
            } else {
                Animation {
                    frames: a.frames,
                    frame_index: (a.frame_index + 1) as usize,
                    time_elapsed: 0,
                    frame_duration: a.frame_duration,
                    play_once: a.play_once,
                    visible: a.visible,
                }
            }
        } else {
            Animation {
                frames: a.frames,
                frame_index: a.frame_index,
                time_elapsed: elapsed as u32,
                frame_duration: a.frame_duration,
                play_once: a.play_once,
                visible: a.visible,
            }
        }
    }
}

/// The clip rewound to its first frame with no elapsed time, as a freshly
/// selected clip starts playing.
pub open spec fn clip_rewound(a: Animation) -> Animation {
    Animation {
        frames: a.frames,
        frame_index: 0,
        time_elapsed: 0,
        frame_duration: a.frame_duration,
        play_once: a.play_once,
        visible: a.visible,
    }
}

/// The clip after `n` ticks of `dt` milliseconds each.
pub open spec fn clip_ticks(a: Animation, dt: u32, n: nat) -> Animation
    decreases n,
{
    if n == 0 {
        a
    } else {
        clip_tick(clip_ticks(a, dt, (n - 1) as nat), dt)
    }
}

impl Animation {
    /// A clip is well formed when it has at least one frame, its current
    /// index points at a frame, its elapsed time has not outrun the frame
    /// duration, and every frame is a well-formed rectangle.
    pub open spec fn wf(self) -> bool {
        &&& self.frames@.len() >= 1
        &&& self.frame_index < self.frames@.len()
        &&& self.time_elapsed <= self.frame_duration
        &&& forall|i: int| 0 <= i < self.frames@.len() ==> #[trigger] self.frames@[i].wf()
    }

    /// Builds a clip of `horizontal x vertical` frames, tiling sub-rectangles
    /// of the size of `rect` row-major from `rect`'s origin.
    pub fn new(
        rect: Rect,
        frame_length: u32,
        play_once: bool,
        horizontal: usize,
        vertical: usize,
    ) -> (r: Animation)
        requires
            rect.wf(),
            1 <= horizontal <= 1_000_000,
            1 <= vertical <= 1_000_000,
            rect.x + rect.width * horizontal <= POS_LIMIT,
            rect.y + rect.height * vertical <= POS_LIMIT,
        ensures
            r.frames@ == grid_frames(rect, horizontal as int, vertical as int),
            r.frame_index == 0,
            r.time_elapsed == 0,
            r.frame_duration == frame_length,
            r.play_once == play_once,
            r.visible,
            r.wf(),
    {
        let mut frames: Vec<Rect> = Vec::new();
        let ghost target = grid_frames(rect, horizontal as int, vertical as int);
        proof {
            assert(horizontal * vertical >= 1) by (nonlinear_arith)
                requires
                    horizontal >= 1,
                    vertical >= 1,
            ;
            assert(0 * horizontal == 0) by (nonlinear_arith);
        }
        for y in 0..vertical
            invariant
                rect.wf(),
                1 <= horizontal <= 1_000_000,
                1 <= vertical <= 1_000_000,
                rect.x + rect.width * horizontal <= POS_LIMIT,
                rect.y + rect.height * vertical <= POS_LIMIT,
                frames@.len() == y * horizontal,
                target == grid_frames(rect, horizontal as int, vertical as int),
                target.len() == horizontal * vertical,
                forall|i: int| 0 <= i < frames@.len() ==> frames@[i] == target[i],
                forall|i: int| 0 <= i < frames@.len() ==> #[trigger] frames@[i].wf(),
        {
            proof {
                assert(y * horizontal + horizontal <= vertical * horizontal) by (nonlinear_arith)
                    requires
                        y < vertical,
                        horizontal >= 1,
                ;
            }
            for x in 0..horizontal
                invariant
                    rect.wf(),
                    1 <= horizontal <= 1_000_000,
                    1 <= vertical <= 1_000_000,
                    y < vertical,
                    rect.x + rect.width * horizontal <= POS_LIMIT,
                    rect.y + rect.height * vertical <= POS_LIMIT,
                    frames@.len() == y * horizontal + x,
                    target == grid_frames(rect, horizontal as int, vertical as int),
                    target.len() == horizontal * vertical,
                    y * horizontal + horizontal <= vertical * horizontal,
                    forall|i: int| 0 <= i < frames@.len() ==> frames@[i] == target[i],
                    forall|i: int| 0 <= i < frames@.len() ==> #[trigger] frames@[i].wf(),
            {
                proof {
                    assert(rect.width * x <= rect.width * horizontal && rect.width * x >= 0)
                        by (nonlinear_arith)
                        requires
                            0 <= x <= horizontal,
                            rect.width >= 0,
                    ;
                    assert(rect.height * y <= rect.height * vertical && rect.height * y >= 0)
                        by (nonlinear_arith)
                        requires
                            0 <= y <= vertical,
                            rect.height >= 0,
                    ;
                }
                let fx: i64 = rect.x as i64 + rect.width as i64 * x as i64;
                let fy: i64 = rect.y as i64 + rect.height as i64 * y as i64;
                proof {
                    assert(-POS_LIMIT <= fx <= POS_LIMIT);
                    assert(-POS_LIMIT <= fy <= POS_LIMIT);
                }
                let frame = Rect { x: fx as i32, y: fy as i32, width: rect.width, height: rect.height };
                proof {
                    let i = y * horizontal + x;
                    assert(i >= 0) by (nonlinear_arith)
                        requires
                            y >= 0,
                            horizontal >= 0,
                            x >= 0,
                            i == y * horizontal + x,
                    ;
                    vstd::arithmetic::div_mod::lemma_fundamental_div_mod_converse_div(
                        i,
                        horizontal as int,
                        y as int,
                        x as int,
                    );
                    vstd::arithmetic::div_mod::lemma_fundamental_div_mod_converse_mod(
                        i,
                        horizontal as int,
                        y as int,
                        x as int,
                    );
                    assert(i < target.len());
                    assert(target[i] == frame);
                }
                frames.push(frame);
            }
            proof {
                assert((y + 1) * horizontal == y * horizontal + horizontal) by (nonlinear_arith);
            }
        }
        proof {
            assert(vertical * horizontal == horizontal * vertical) by (nonlinear_arith);
            assert(frames@ =~= target);
        }
        Animation {
            frames,
            frame_index: 0,
            time_elapsed: 0,
            frame_duration: frame_length,
            play_once,
            visible: true,
        }
    }

    /// The source rectangle of the frame the clip currently shows.
    pub fn get_current_frame(&self) -> (r: Rect)
        requires
            self.wf(),
        ensures
            r == self.frames@[self.frame_index as int],
    {
        self.frames[self.frame_index]
    }

    /// Advances the clip by `dt` milliseconds.
    pub fn update(&mut self, dt: u32)
        requires
            old(self).wf(),
        ensures
            *final(self) == clip_tick(*old(self), dt),
            final(self).wf(),
    {
        if self.play_once && !self.visible {
            return ;
        }
        let elapsed: u64 = self.time_elapsed as u64 + dt as u64;
        if elapsed > self.frame_duration as u64 {
            self.time_elapsed = 0;
            let len = self.frames.len();
            let next = self.frame_index + 1;
            if next >= len {
                self.frame_index = 0;
                self.visible = !self.play_once;
            } else {
                self.frame_index = next;
            }
        } else {
            self.time_elapsed = elapsed as u32;
        }
    }
}

/// A finished play-once clip never changes again: its frame index stops
/// advancing and it stays invisible, for any number of further ticks.
pub proof fn lemma_play_once_stays_finished(a: Animation, dt: u32, n: nat)
    requires
        a.play_once,
        !a.visible,
    ensures
        clip_ticks(a, dt, n) == a,
    decreases n,
{
    if n > 0 {
        lemma_play_once_stays_finished(a, dt, (n - 1) as nat);
    }
}

/// A looping clip stays visible forever: its frame index wraps around the end
/// of the clip without ever flagging the clip as finished.
pub proof fn lemma_looping_clip_stays_visible(a: Animation, dt: u32, n: nat)
    requires
        !a.play_once,
        a.visible,
    ensures
        clip_ticks(a, dt, n).visible,
        clip_ticks(a, dt, n).play_once == a.play_once,
    decreases n,
{
    if n > 0 {
        lemma_looping_clip_stays_visible(a, dt, (n - 1) as nat);
    }
}

/// The tick on which a play-once clip's elapsed time outruns its last frame
/// resets the frame index to the start and flags the clip as finished.
pub proof fn lemma_play_once_finishes_at_wrap(a: Animation, dt: u32)
    requires
        a.play_once,
        a.visible,
        a.time_elapsed + dt > a.frame_duration,
        a.frame_index + 1 >= a.frames@.len(),
    ensures
        !clip_tick(a, dt).visible,
        clip_tick(a, dt).frame_index == 0,
{
}

/// Ticks spent showing one frame from a rewound timer: the elapsed time must
/// strictly exceed the frame duration before the index advances.
pub open spec fn ticks_per_frame(a: Animation, dt: u32) -> int {
    a.frame_duration as int / dt as int + 1
}

/// An upper bound on the ticks of `dt` milliseconds each until a play-once
/// clip finishes: the frames still to play through, plus the ticks left on
/// the current frame.
pub open spec fn ticks_to_finish(a: Animation, dt: u32) -> int {
    (a.frames@.len() - 1 - a.frame_index) * ticks_per_frame(a, dt) + (a.frame_duration
        - a.time_elapsed) as int / dt as int + 1
}

/// One tick of a running play-once clip either finishes it — rewound and
/// flagged invisible — or strictly lowers the bound on the ticks remaining.
proof fn lemma_finish_step(a: Animation, dt: u32)
    requires
        a.wf(),
        a.play_once,
        a.visible,
        dt >= 1,
    ensures
        ({
            let a2 = clip_tick(a, dt);
            &&& a2.wf()
            &&& a2.play_once
            &&& ticks_to_finish(a, dt) >= 1
            &&& (!a2.visible ==> a2.frame_index == 0 && a2.time_elapsed == 0)
            &&& (a2.visible ==> 1 <= ticks_to_finish(a2, dt) < ticks_to_finish(a, dt))
        }),
{
    let a2 = clip_tick(a, dt);
    vstd::std_specs::vec::axiom_spec_len(&a.frames);
    assert(a.frames@.len() <= usize::MAX);
    let len = a.frames@.len() as int;
    let idx = a.frame_index as int;
    let tpf = ticks_per_frame(a, dt);
    let left = (a.frame_duration - a.time_elapsed) as int;
    vstd::arithmetic::div_mod::lemma_div_pos_is_pos(left, dt as int);
    vstd::arithmetic::div_mod::lemma_div_pos_is_pos(a.frame_duration as int, dt as int);
    assert((len - 1 - idx) * tpf >= 0) by (nonlinear_arith)
        requires
            len - 1 - idx >= 0,
            tpf >= 1,
    ;
    if a.time_elapsed + dt <= a.frame_duration {
        // The timer merely accumulates: one tick fewer remains on this frame.
        assert(a2.time_elapsed == a.time_elapsed + dt);
        vstd::arithmetic::div_mod::lemma_fundamental_div_mod(left, dt as int);
        let q = left / dt as int;
        let r = left % dt as int;
        assert(left - dt == (q - 1) * (dt as int) + r) by (nonlinear_arith)
            requires
                left == (dt as int) * q + r,
        ;
        vstd::arithmetic::div_mod::lemma_fundamental_div_mod_converse_div(
            left - dt,
            dt as int,
            q - 1,
            r,
        );
        vstd::arithmetic::div_mod::lemma_div_is_ordered(dt as int, left, dt as int);
        vstd::arithmetic::div_mod::lemma_div_by_self(dt as int);
        assert(q - 1 >= 0);
        assert((a2.frame_duration - a2.time_elapsed) as int == left - dt);
        assert(ticks_to_finish(a2, dt) == (len - 1 - idx) * tpf + (q - 1) + 1);
        assert(ticks_to_finish(a, dt) == (len - 1 - idx) * tpf + q + 1);
    } else if a.frame_index + 1 < a.frames@.len() {
        // The frame advances with a rewound timer.
        assert(a2.frame_index == idx + 1 && a2.time_elapsed == 0);
        assert((len - 1 - (idx + 1)) * tpf + tpf == (len - 1 - idx) * tpf) by (nonlinear_arith);
        assert((len - 1 - (idx + 1)) * tpf >= 0) by (nonlinear_arith)
            requires
                len - 1 - (idx + 1) >= 0,
                tpf >= 1,
        ;
        assert(ticks_to_finish(a2, dt) == (len - 1 - (idx + 1)) * tpf + tpf);
        assert(ticks_to_finish(a, dt) == (len - 1 - idx) * tpf + left / dt as int + 1);
        vstd::arithmetic::div_mod::lemma_div_pos_is_pos(left, dt as int);
    } else {
        // The wrap past the last frame finishes the clip.
        assert(!a2.visible);
    }
}

/// Moving the first of `n` ticks out in front.
proof fn lemma_ticks_shift(a: Animation, dt: u32, n: nat)
    requires
        n >= 1,
    ensures
        clip_ticks(a, dt, n) == clip_ticks(clip_tick(a, dt), dt, (n - 1) as nat),
    decreases n,
{
    if n > 1 {
        lemma_ticks_shift(a, dt, (n - 1) as nat);
        assert(clip_ticks(a, dt, n) == clip_tick(clip_ticks(a, dt, (n - 1) as nat), dt));
        assert(clip_ticks(clip_tick(a, dt), dt, (n - 1) as nat) == clip_tick(
            clip_ticks(clip_tick(a, dt), dt, (n - 2) as nat),
            dt,
        ));
    } else {
        assert(clip_ticks(a, dt, 0) == a);
        assert(clip_ticks(clip_tick(a, dt), dt, 0) == clip_tick(a, dt));
    }
}

/// A running play-once clip finishes within a bounded number of ticks: after
/// `ticks_to_finish` ticks — at most one pass over its frames — it sits
/// rewound at its first frame, flagged invisible, and never changes again.
pub proof fn lemma_play_once_finishes(a: Animation, dt: u32, n: nat)
    requires
        a.wf(),
        a.play_once,
        a.visible,
        dt >= 1,
        n >= ticks_to_finish(a, dt),
    ensures
        ({
            let f = clip_ticks(a, dt, n);
            !f.visible && f.frame_index == 0 && f.time_elapsed == 0
        }),
    decreases n,
{
    lemma_finish_step(a, dt);
    let a2 = clip_tick(a, dt);
    lemma_ticks_shift(a, dt, n);
    if a2.visible {
        lemma_play_once_finishes(a2, dt, (n - 1) as nat);
    } else {
        lemma_play_once_stays_finished(a2, dt, (n - 1) as nat);
    }
}

} // verus!

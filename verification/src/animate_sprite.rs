use crate::animation::{clip_rewound, clip_tick, grid_frames, Animation};
use crate::geometry::{Rect, POS_LIMIT};
use vstd::prelude::*;

verus! {

/// A clip name was looked up that no `add_animation` call ever registered:
/// a programmer error, surfaced instead of silently degrading.
#[derive(Clone, Copy, PartialEq, Eq, Structural, Debug)]
pub struct AnimationLookupError;

/// A named registry of sprite clips together with the name of the clip that
/// currently plays. The registry is a association list with unique keys,
/// viewed in specifications as a map from clip name to clip.
#[derive(Debug)]
pub struct AnimateSprite {
    pub name: String,
    pub sprites: Vec<(String, Animation)>,
    pub current_animation: String,
}

/// The map from clip name to clip that an association list denotes; a later
/// entry with the same name would win, though well-formed registries hold
/// each name once.
pub open spec fn reg_of(s: Seq<(String, Animation)>) -> Map<Seq<char>, Animation>
    decreases s.len(),
{
    if s.len() == 0 {
        Map::empty()
    } else {
        reg_of(s.drop_last()).insert(s.last().0@, s.last().1)
    }
}

/// No two entries of the association list share a name.
pub open spec fn keys_unique(s: Seq<(String, Animation)>) -> bool {
    forall|i: int, j: int| 0 <= i < j < s.len() ==> s[i].0@ != s[j].0@
}

/// An entry of the list is an entry of the denoted map.
proof fn lemma_reg_contains(s: Seq<(String, Animation)>, i: int)
    requires
        keys_unique(s),
        0 <= i < s.len(),
    ensures
        reg_of(s).contains_pair(s[i].0@, s[i].1),
    decreases s.len(),
{
    if i == s.len() - 1 {
    } else {
        lemma_reg_contains(s.drop_last(), i);
    }
}

/// A name in the denoted map names some entry of the list.
proof fn lemma_reg_dom(s: Seq<(String, Animation)>, k: Seq<char>)
    requires
        reg_of(s).dom().contains(k),
    ensures
        exists|i: int| 0 <= i < s.len() && #[trigger] s[i].0@ == k,
    decreases s.len(),
{
    if s.len() > 0 {
        if s.last().0@ == k {
            assert(s[s.len() - 1].0@ == k);
        } else {
            lemma_reg_dom(s.drop_last(), k);
            let i = choose|i: int| 0 <= i < s.drop_last().len() && #[trigger] s.drop_last()[i].0@ == k;
            assert(s[i].0@ == k);
        }
    }
}

/// Replacing the entry at `i` by a pair with the same name updates the
/// denoted map at that name alone.
proof fn lemma_reg_update(s: Seq<(String, Animation)>, i: int, p: (String, Animation))
    requires
        keys_unique(s),
        0 <= i < s.len(),
        p.0@ == s[i].0@,
    ensures
        reg_of(s.update(i, p)) =~= reg_of(s).insert(s[i].0@, p.1),
        keys_unique(s.update(i, p)),
    decreases s.len(),
{
    let t = s.update(i, p);
    assert(forall|j: int| 0 <= j < s.len() && j != i ==> t[j] == s[j]);
    if i == s.len() - 1 {
        assert(t.drop_last() =~= s.drop_last());
    } else {
        lemma_reg_update(s.drop_last(), i, p);
        assert(t.drop_last() =~= s.drop_last().update(i, p));
        assert(t.last() == s.last());
    }
}

/// Appending an entry inserts its name into the denoted map.
proof fn lemma_reg_push(s: Seq<(String, Animation)>, p: (String, Animation))
    requires
        keys_unique(s),
        forall|i: int| 0 <= i < s.len() ==> #[trigger] s[i].0@ != p.0@,
    ensures
        reg_of(s.push(p)) =~= reg_of(s).insert(p.0@, p.1),
        keys_unique(s.push(p)),
{
    assert(s.push(p).drop_last() =~= s);
}

/// The registry after the clip of the given name is selected: selecting the
/// name that is already current changes nothing; otherwise the newly current
/// clip, where one of that name is registered, is rewound to its first frame.
pub open spec fn switch_clip(
    reg: Map<Seq<char>, Animation>,
    current: Seq<char>,
    name: Seq<char>,
) -> Map<Seq<char>, Animation> {
    if current == name {
        reg
    } else if reg.dom().contains(name) {
        reg.insert(name, clip_rewound(reg[name]))
    } else {
        reg
    }
}

impl AnimateSprite {
    /// The registry as a map from clip name to clip.
    pub open spec fn reg(self) -> Map<Seq<char>, Animation> {
        reg_of(self.sprites@)
    }

    /// Whether a clip of the given name is registered.
    pub open spec fn has_clip(self, name: Seq<char>) -> bool {
        self.reg().dom().contains(name)
    }

    /// The registry holds each name once and only well-formed clips.
    pub open spec fn wf(self) -> bool {
        &&& keys_unique(self.sprites@)
        &&& forall|i: int| 0 <= i < self.sprites@.len() ==> (#[trigger] self.sprites@[i].1).wf()
    }

    /// An empty registry without a current clip.
    pub fn new(name: String) -> (r: AnimateSprite)
        ensures
            r.name == name,
            r.sprites@.len() == 0,
            r.current_animation@ == Seq::<char>::empty(),
            r.reg() == Map::<Seq<char>, Animation>::empty(),
            r.wf(),
    {
        AnimateSprite { name, sprites: Vec::new(), current_animation: String::new() }
    }

    /// The name of the texture this sprite draws from.
    pub fn get_name(&self) -> (r: String)
        ensures
            r == self.name,
    {
        self.name.clone()
    }

    /// The position of the entry holding the given name, if any.
    fn find_clip(&self, name: &String) -> (r: Option<usize>)
        ensures
            match r {
                Some(i) => i < self.sprites@.len() && self.sprites@[i as int].0@ == name@,
                None => forall|i: int|
                    0 <= i < self.sprites@.len() ==> #[trigger] self.sprites@[i].0@ != name@,
            },
    {
        let n = self.sprites.len();
        for i in 0..n
            invariant
                n == self.sprites@.len(),
                forall|j: int| 0 <= j < i ==> #[trigger] self.sprites@[j].0@ != name@,
        {
            if self.sprites[i].0.eq(name) {
                return Some(i);
            }
        }
        None
    }

    /// Registers (or replaces) the clip of the given name, built as a
    /// `horizontal x vertical` grid of frames tiled from `rect`.
    pub fn add_animation(
        &mut self,
        name: String,
        rect: Rect,
        frame_duration: u32,
        play_once: bool,
        horizontal: usize,
        vertical: usize,
    )
        requires
            old(self).wf(),
            rect.wf(),
            1 <= horizontal <= 1_000_000,
            1 <= vertical <= 1_000_000,
            rect.x + rect.width * horizontal <= POS_LIMIT,
            rect.y + rect.height * vertical <= POS_LIMIT,
        ensures
            final(self).wf(),
            final(self).name == old(self).name,
            final(self).current_animation == old(self).current_animation,
            final(self).reg().dom() =~= old(self).reg().dom().insert(name@),
            forall|k: Seq<char>|
                old(self).has_clip(k) && k != name@ ==> #[trigger] final(self).reg()[k] == old(
                    self,
                ).reg()[k],
            ({
                let c = final(self).reg()[name@];
                &&& c.frames@ == grid_frames(rect, horizontal as int, vertical as int)
                &&& c.frame_index == 0
                &&& c.time_elapsed == 0
                &&& c.frame_duration == frame_duration
                &&& c.play_once == play_once
                &&& c.visible
            }),
    {
        let animation = Animation::new(rect, frame_duration, play_once, horizontal, vertical);
        match self.find_clip(&name) {
            Some(i) => {
                proof {
                    lemma_reg_update(self.sprites@, i as int, (name, animation));
                }
                let mut pair = self.sprites.remove(i);
                pair = (name, animation);
                self.sprites.insert(i, pair);
                proof {
                    assert(self.sprites@ =~= old(self).sprites@.update(i as int, (name, animation)));
                    assert(final(self).reg() =~= old(self).reg().insert(name@, animation));
                    assert(final(self).reg().dom() =~= old(self).reg().dom().insert(name@));
                }
            },
            None => {
                proof {
                    lemma_reg_push(self.sprites@, (name, animation));
                }
                self.sprites.push((name, animation));
                proof {
                    assert(final(self).reg() =~= old(self).reg().insert(name@, animation));
                    assert(final(self).reg().dom() =~= old(self).reg().dom().insert(name@));
                }
            },
        }
    }

    /// Makes the clip of the given name current. Switching to the name that
    /// is already current changes nothing, so a clip held over several ticks
    /// is not restarted; a genuine switch rewinds the newly current clip to
    /// its first frame.
    pub fn set_animation(&mut self, name: String)
        requires
            old(self).wf(),
        ensures
            final(self).wf(),
            final(self).name == old(self).name,
            final(self).current_animation@ == name@,
            final(self).reg() == switch_clip(
                old(self).reg(),
                old(self).current_animation@,
                name@,
            ),
            old(self).current_animation@ == name@ ==> *final(self) == *old(self),
    {
        if !self.current_animation.eq(&name) {
            match self.find_clip(&name) {
                Some(i) => {
                    proof {
                        lemma_reg_contains(self.sprites@, i as int);
                    }
                    let mut pair = self.sprites.remove(i);
                    pair.1.frame_index = 0;
                    pair.1.time_elapsed = 0;
                    self.sprites.insert(i, pair);
                    proof {
                        let old_pair = old(self).sprites@[i as int];
                        let new_pair = (old_pair.0, clip_rewound(old_pair.1));
                        assert(self.sprites@ =~= old(self).sprites@.update(i as int, new_pair));
                        lemma_reg_update(old(self).sprites@, i as int, new_pair);
                        assert(self.reg() =~= old(self).reg().insert(
                            old_pair.0@,
                            clip_rewound(old(self).reg()[old_pair.0@]),
                        ));
                    }
                },
                None => {
                    proof {
                        if old(self).has_clip(name@) {
                            lemma_reg_dom(self.sprites@, name@);
                        }
                    }
                },
            }
            self.current_animation = name;
        }
    }

    /// The currently selected clip.
    pub fn current_clip(&self) -> (r: Result<&Animation, AnimationLookupError>)
        requires
            self.wf(),
        ensures
            r is Ok <==> self.has_clip(self.current_animation@),
            r is Ok ==> *r.unwrap() == self.reg()[self.current_animation@] && r.unwrap().wf(),
    {
        match self.find_clip(&self.current_animation) {
            Some(i) => {
                proof {
                    lemma_reg_contains(self.sprites@, i as int);
                }
                Ok(&self.sprites[i].1)
            },
            None => {
                proof {
                    if self.has_clip(self.current_animation@) {
                        lemma_reg_dom(self.sprites@, self.current_animation@);
                    }
                }
                Err(AnimationLookupError)
            },
        }
    }

    /// Advances the current clip by `dt` milliseconds. Fails, changing
    /// nothing, exactly when no clip of the current name is registered.
    pub fn update(&mut self, dt: u32) -> (r: Result<(), AnimationLookupError>)
        requires
            old(self).wf(),
        ensures
            final(self).wf(),
            r is Ok <==> old(self).has_clip(old(self).current_animation@),
            r is Err ==> *final(self) == *old(self),
            r is Ok ==> {
                &&& final(self).name == old(self).name
                &&& final(self).current_animation == old(self).current_animation
                &&& final(self).reg() =~= old(self).reg().insert(
                    old(self).current_animation@,
                    clip_tick(old(self).reg()[old(self).current_animation@], dt),
                )
            },
    {
        match self.find_clip(&self.current_animation) {
            Some(i) => {
                proof {
                    lemma_reg_contains(self.sprites@, i as int);
                }
                let mut pair = self.sprites.remove(i);
                pair.1.update(dt);
                self.sprites.insert(i, pair);
                proof {
                    let old_pair = old(self).sprites@[i as int];
                    let new_pair = (old_pair.0, clip_tick(old_pair.1, dt));
                    assert(self.sprites@ =~= old(self).sprites@.update(i as int, new_pair));
                    lemma_reg_update(old(self).sprites@, i as int, new_pair);
                }
                Ok(())
            },
            None => {
                proof {
                    if old(self).has_clip(old(self).current_animation@) {
                        lemma_reg_dom(self.sprites@, self.current_animation@);
                    }
                }
                Err(AnimationLookupError)
            },
        }
    }
}

} // verus!

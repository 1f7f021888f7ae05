//! Sprite-sheet animation state: named frame ranges and the frame shown.
use vstd::prelude::*;

verus! {

/// A first and a last frame, both included.
pub type AnimationFrameRange = (usize, usize);

#[derive(Debug)]
pub struct AnimationState {
    pub animations: Vec<AnimationFrameRange>,
    pub current_animation: usize,
    pub current_idx: usize,
    pub is_playing: bool,
    pub one_shot: bool,
}

impl Default for AnimationState {
    fn default() -> (r: Self)
        ensures
            r.animations@.len() == 0,
            r.current_animation == 0,
            r.current_idx == 0,
            !r.is_playing,
            !r.one_shot,
    {
        AnimationState {
            animations: Vec::new(),
            current_animation: 0,
            current_idx: 0,
            is_playing: false,
            one_shot: false,
        }
    }
}

impl AnimationState {
    /// The current animation is one of the state's, and its frame can move on.
    pub open spec fn wf(&self) -> bool {
        &&& self.current_animation < self.animations@.len()
        &&& self.current_idx < usize::MAX
    }

    /// Switches to animation `animation_idx` at its first frame; an unknown
    /// index is refused and changes nothing.
    pub fn set_animation(&mut self, animation_idx: usize) -> (r: bool)
        ensures
            r == (animation_idx < old(self).animations@.len()),
            final(self).animations == old(self).animations,
            final(self).is_playing == old(self).is_playing,
            final(self).one_shot == old(self).one_shot,
            r ==> final(self).current_animation == animation_idx && final(self).current_idx
                == old(self).animations@[animation_idx as int].0,
            !r ==> final(self).current_animation == old(self).current_animation
                && final(self).current_idx == old(self).current_idx,
    {
        if animation_idx >= self.animations.len() {
            return false;
        }
        self.current_animation = animation_idx;
        self.current_idx = self.animations[animation_idx].0;
        true
    }

    /// Moves to the next frame, back to the first after the last. Returns the
    /// frame, cut to 32 bits.
    pub fn incr(&mut self) -> (r: u32)
        requires
            old(self).wf(),
        ensures
            final(self).animations == old(self).animations,
            final(self).current_animation == old(self).current_animation,
            final(self).is_playing == old(self).is_playing,
            final(self).one_shot == old(self).one_shot,
            ({
                let (first, last) = old(self).animations@[old(self).current_animation as int];
                final(self).current_idx == if old(self).current_idx == last {
                    first as int
                } else {
                    old(self).current_idx + 1
                }
            }),
            r == final(self).current_idx as int % 0x1_0000_0000,
    {
        let (first, last) = self.animations[self.current_animation];
        if self.current_idx == last {
            self.current_idx = first;
        } else {
            self.current_idx = self.current_idx + 1;
        }
        (self.current_idx as u64 % 0x1_0000_0000) as u32
    }

    /// The sprite index to draw: 0 when stopped, else the animation's first
    /// frame plus the current index, cut to 32 bits.
    pub fn get_frame_index(&self) -> (r: u32)
        requires
            self.current_animation < self.animations@.len(),
        ensures
            !self.is_playing ==> r == 0,
            self.is_playing ==> r == (self.animations@[self.current_animation as int].0
                + self.current_idx) % 0x1_0000_0000,
    {
        if !self.is_playing {
            return 0;
        }
        let sum = self.animations[self.current_animation].0 as u128 + self.current_idx as u128;
        (sum % 0x1_0000_0000) as u32
    }
}

/// One timer tick of a playing sprite: moves to the next frame and says
/// whether a one-shot animation has wrapped round and should go.
pub fn animate_sprites(state: &mut AnimationState) -> (r: (u32, bool))
    requires
        old(state).wf(),
    ensures
        final(state).current_animation == old(state).current_animation,
        final(state).animations == old(state).animations,
        ({
            let (first, last) = old(state).animations@[old(state).current_animation as int];
            final(state).current_idx == if old(state).current_idx == last {
                first as int
            } else {
                old(state).current_idx + 1
            }
        }),
        r.0 == final(state).current_idx as int % 0x1_0000_0000,
        r.1 == (old(state).one_shot && r.0 < old(state).current_idx as int % 0x1_0000_0000),
{
    let prev = (state.current_idx as u64 % 0x1_0000_0000) as u32;
    let index = state.incr();
    (index, state.one_shot && index < prev)
}

} // verus!

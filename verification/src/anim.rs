//! Animation selection: one clip for standing still, one for walking,
//! blended with a fixed cross-fade.

use vstd::prelude::*;

verus! {

/// Index of the idle clip in the loaded clip list.
pub const IDLE_CLIP: usize = 0;

/// Index of the walking clip in the loaded clip list.
pub const WALK_CLIP: usize = 1;

/// Cross-fade length when switching clips, in milliseconds.
pub const BLEND_MILLIS: u64 = 250;

/// The loaded animation clips, each named by an engine-side handle id.
#[derive(Debug, PartialEq, Eq)]
pub struct Animations(pub Vec<u64>);

/// The clip index to play: walking while the character moves, idle otherwise.
pub open spec fn clip_for_spec(moving: bool) -> usize {
    if moving {
        WALK_CLIP
    } else {
        IDLE_CLIP
    }
}

/// Pick the clip index for the current motion state.
pub fn clip_for(moving: bool) -> (c: usize)
    ensures
        c == clip_for_spec(moving),
{
    if moving {
        WALK_CLIP
    } else {
        IDLE_CLIP
    }
}

impl Animations {
    /// The handle of the clip to play for the current motion state, if that
    /// clip was loaded.
    pub fn handle_for(&self, moving: bool) -> (h: Option<u64>)
        ensures
            h == if clip_for_spec(moving) < self.0@.len() {
                Some(self.0@[clip_for_spec(moving) as int])
            } else {
                Option::<u64>::None
            },
    {
        let clip = clip_for(moving);
        if clip < self.0.len() {
            Some(self.0[clip])
        } else {
            None
        }
    }
}

} // verus!

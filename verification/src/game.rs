//! The whole per-frame gameplay rule, folding input, locomotion and
//! animation choice into one step.

use vstd::prelude::*;

use crate::anim::{clip_for, clip_for_spec};
use crate::motion::{
    arrived_spec, axis_step, between, dist_sq_spec, select_target, selected_target, sqrt_of_dist,
    step_toward, MousePosition, Vec3,
};

verus! {

/// Everything one gameplay frame decides.
#[derive(Debug, Clone, Copy, PartialEq, Eq, Structural)]
pub struct FrameResult {
    /// Where the character stands after the frame.
    pub pos: Vec3,
    /// The movement target after the frame's input.
    pub target: Vec3,
    /// Whether the character moved this frame.
    pub moving: bool,
    /// The clip index to blend into.
    pub clip: usize,
}

/// One gameplay frame: a click released over a play-area point under the
/// cursor retargets the character; the character then advances one step
/// toward the (possibly new) target unless it has arrived, and the clip
/// follows the motion.
pub fn frame_update(pos: &Vec3, target: &Vec3, mouse: &MousePosition, clicked: bool) -> (r:
    FrameResult)
    requires
        pos.in_bounds(),
        target.in_bounds(),
    ensures
        r.target == selected_target(*target, mouse.pos, clicked),
        r.moving == !arrived_spec(*pos, r.target),
        !r.moving ==> r.pos == *pos,
        r.moving ==> ({
            let d = sqrt_of_dist(*pos, r.target);
            &&& r.pos.x as int == axis_step(pos.x as int, r.target.x as int, d)
            &&& r.pos.y as int == axis_step(pos.y as int, r.target.y as int, d)
            &&& r.pos.z as int == axis_step(pos.z as int, r.target.z as int, d)
        }),
        r.clip == clip_for_spec(r.moving),
        between(pos.x as int, r.pos.x as int, r.target.x as int),
        between(pos.y as int, r.pos.y as int, r.target.y as int),
        between(pos.z as int, r.pos.z as int, r.target.z as int),
        dist_sq_spec(r.pos, r.target) <= dist_sq_spec(*pos, r.target),
        r.moving ==> dist_sq_spec(r.pos, r.target) < dist_sq_spec(*pos, r.target),
        r.pos.in_bounds(),
        r.target.in_bounds(),
{
    let new_target = select_target(target, &mouse.pos, clicked);
    let (new_pos, moving) = step_toward(pos, &new_target);
    let clip = clip_for(moving);
    proof {
        crate::motion::lemma_step_never_increases_distance(*pos, new_pos, new_target);
    }
    FrameResult { pos: new_pos, target: new_target, moving, clip }
}

} // verus!

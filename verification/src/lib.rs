//! Game rules for a small click-to-move prototype.
//!
//! The engine (rendering, audio, windowing, entity storage) stays outside;
//! this library holds the per-frame decisions: the splash-screen countdown,
//! selection of a movement target inside the play area, fixed-step motion
//! toward that target, and the choice of animation clip. Positions are held
//! in fixed point, thousandths of a world unit, so every rule is exact.

pub mod anim;
pub mod game;
pub mod math;
pub mod motion;
pub mod state;

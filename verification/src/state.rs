//! The presentation state machine: a splash screen shown for a fixed time,
//! then the game scene.

use vstd::prelude::*;

verus! {

/// How long the splash screen stays up, in milliseconds.
pub const SPLASH_MILLIS: u64 = 5000;

/// Width of the fixed 2D view the splash camera projects, in pixels.
pub const VIEW_WIDTH: u64 = 1600;

/// Height of the fixed 2D view the splash camera projects, in pixels.
pub const VIEW_HEIGHT: u64 = 900;

/// The two presentation states: the splash screen, then the game.
#[derive(Debug, Clone, Copy, PartialEq, Eq, Structural)]
pub enum GameState {
    Splash,
    Game,
}

impl Default for GameState {
    /// The machine starts on the splash screen.
    fn default() -> (s: Self)
        ensures
            s == GameState::Splash,
    {
        GameState::Splash
    }
}

/// The state after one frame: the splash screen gives way to the game
/// exactly when its timer has run out; the game state is final.
pub open spec fn next_state(s: GameState, timer_finished: bool) -> GameState {
    if s == GameState::Splash && timer_finished {
        GameState::Game
    } else {
        s
    }
}

/// One frame of the presentation state machine.
pub fn countdown(s: GameState, timer_finished: bool) -> (next: GameState)
    ensures
        next == next_state(s, timer_finished),
{
    if timer_finished {
        match s {
            GameState::Splash => GameState::Game,
            GameState::Game => GameState::Game,
        }
    } else {
        s
    }
}

/// Once the game state is reached, no frame leaves it.
pub proof fn lemma_game_state_is_final(timer_finished: bool)
    ensures
        next_state(GameState::Game, timer_finished) == GameState::Game,
{
}

/// The game state is reached only when the splash timer has finished.
pub proof fn lemma_game_needs_finished_timer(s: GameState, timer_finished: bool)
    requires
        s == GameState::Splash,
        !timer_finished,
    ensures
        next_state(s, timer_finished) == GameState::Splash,
{
}

/// The splash-screen timer, counting down in milliseconds.
#[derive(Debug, Clone, Copy, PartialEq, Eq, Structural)]
pub struct SplashTimer {
    pub remaining_millis: u64,
}

impl SplashTimer {
    /// A fresh timer with the full splash duration left.
    pub fn new() -> (t: Self)
        ensures
            t.remaining_millis == SPLASH_MILLIS,
    {
        SplashTimer { remaining_millis: SPLASH_MILLIS }
    }

    /// Advance the timer by one frame's elapsed time. The remaining time
    /// never underflows, and the result says whether the timer is done.
    pub fn tick(&mut self, delta_millis: u64) -> (finished: bool)
        ensures
            final(self).remaining_millis == if delta_millis >= old(self).remaining_millis {
                0u64
            } else {
                (old(self).remaining_millis - delta_millis) as u64
            },
            finished == (final(self).remaining_millis == 0),
    {
        if delta_millis >= self.remaining_millis {
            self.remaining_millis = 0;
        } else {
            self.remaining_millis = self.remaining_millis - delta_millis;
        }
        self.remaining_millis == 0
    }
}

/// The languages the menu offers.
#[derive(Debug, Clone, Copy, PartialEq, Eq, Structural)]
pub enum Language {
    English,
}

/// The audio volume setting.
#[derive(Debug, Clone, Copy, PartialEq, Eq, Structural)]
pub struct Volume(pub u32);

/// The current level number.
#[derive(Debug, Clone, Copy, PartialEq, Eq, Structural)]
pub struct Level(pub usize);

/// Whether the intro audio has already been played.
#[derive(Debug, Clone, Copy, PartialEq, Eq, Structural)]
pub struct Played(pub bool);

/// The settings the menu starts with: English, volume 7.
pub fn initial_settings() -> (s: (Language, Volume))
    ensures
        s.0 == Language::English,
        s.1 == (Volume(7u32)),
{
    (Language::English, Volume(7))
}

} // verus!

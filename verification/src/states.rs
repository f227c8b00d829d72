//! The game's top-level phase.

use vstd::prelude::*;

verus! {

/// The phase gating which systems run: the menu, the running game, and
/// the game-over screen. The spawner, the combat resolver, the steering
/// controller and player intents run only in game; integration and the
/// lifetime manager run in every phase.
#[derive(Clone, Copy, PartialEq, Eq, Structural, Debug, Default)]
pub enum AppState {
    /// The initial phase.
    #[default]
    Menu,
    /// The simulation is running.
    InGame,
    /// The player is gone; an external restart intent may re-enter the
    /// game.
    GameOver,
}

} // verus!

//! The phases of the game.

use vstd::prelude::*;

verus! {

/// The phase the game is in.
#[derive(Eq, PartialEq, Clone, Copy, Hash, Debug, Structural)]
pub enum GameState {
    Loading,
    MainMenu,
    Countdown,
    Gameplay,
    GameOver,
}

} // verus!

//! The phases of a playthrough, what the player can do in one tick, and what
//! a tick can announce.

use vstd::prelude::*;

verus! {

/// The phase a session is in.
#[derive(Debug, Clone, Copy, PartialEq, Eq, Hash, Structural)]
pub enum GameState {
    /// Waiting for the player to start the level.
    LandingScreen,
    /// The player moves over the field and cuts tiles.
    InGame,
    /// The player has declared the pattern finished; scoring is due.
    EndGame,
    /// The score of the attempt is on show.
    Score,
    /// The last level has been passed.
    GameOver,
}

/// What a tick announces to whoever draws the game.
#[derive(Debug, Clone, Copy, PartialEq, Eq, Hash, Structural)]
pub enum Signal {
    /// The field was reset: the tiles of the current level are to be laid
    /// out afresh.
    Restart,
    /// The attempt has been scored.
    ScoreComputed,
    /// The attempt matches the pattern exactly.
    PerfectScore,
}

/// The keys as sampled at the start of a tick.
#[derive(Debug, Clone, Copy, PartialEq, Eq)]
pub struct Input {
    /// The up key is down.
    pub up: bool,
    /// The down key is down.
    pub down: bool,
    /// The left key is down.
    pub left: bool,
    /// The right key is down.
    pub right: bool,
    /// The action key is down.
    pub action: bool,
    /// The tile the player stands on, while the cut key is down.
    pub cut: Option<(usize, usize)>,
}

impl Input {
    /// Whether any of the four direction keys is down.
    pub open spec fn spec_any_direction(&self) -> bool {
        self.up || self.down || self.left || self.right
    }

    /// Whether any of the four direction keys is down.
    #[verifier::when_used_as_spec(spec_any_direction)]
    pub fn any_direction(&self) -> (any: bool)
        ensures
            any == self.spec_any_direction(),
    {
        self.up || self.down || self.left || self.right
    }

    /// The input of a tick in which no key is down.
    pub fn idle() -> (input: Input)
        ensures
            input == (Input {
                up: false,
                down: false,
                left: false,
                right: false,
                action: false,
                cut: None,
            }),
    {
        Input { up: false, down: false, left: false, right: false, action: false, cut: None }
    }
}

} // verus!

//! The player's avatar on the field: where it stands, which way it looks,
//! and how the direction keys move it.

use vstd::prelude::*;
use crate::state::Input;

verus! {

/// The way the avatar looks.
#[derive(Debug, Clone, Copy, PartialEq, Eq, Hash, Structural)]
pub enum Facing {
    /// Towards growing `z`.
    Up,
    /// Towards `z = 0`.
    Down,
    /// Towards growing `x`.
    Left,
    /// Towards `x = 0`.
    Right,
}

/// The avatar: the tile it stands on and the way it looks.
#[derive(Debug, Clone, Copy, PartialEq, Eq, Structural)]
pub struct Player {
    /// First coordinate of the tile.
    pub x: usize,
    /// Second coordinate of the tile.
    pub z: usize,
    /// The way the avatar looks.
    pub facing: Facing,
}

/// A coordinate after a key that raises it: one more, unless that would
/// leave a field of side `size`.
pub open spec fn raised(at: nat, size: nat) -> nat {
    if at + 1 < size {
        at + 1
    } else {
        at
    }
}

/// A coordinate after a key that lowers it: one less, but never below zero.
pub open spec fn lowered(at: nat) -> nat {
    if at > 0 {
        (at - 1) as nat
    } else {
        at
    }
}

/// A coordinate after one tick: the raising key is applied first, then the
/// lowering key.
pub open spec fn shifted(at: nat, size: nat, raise: bool, lower: bool) -> nat {
    let up = if raise {
        raised(at, size)
    } else {
        at
    };
    if lower {
        lowered(up)
    } else {
        up
    }
}

/// The way the avatar looks after one tick: the way of the key that is down,
/// the right key winning over the left, the left over the down and the down
/// over the up; unchanged when no direction key is down.
pub open spec fn turned(facing: Facing, input: Input) -> Facing {
    if input.right {
        Facing::Right
    } else if input.left {
        Facing::Left
    } else if input.down {
        Facing::Down
    } else if input.up {
        Facing::Up
    } else {
        facing
    }
}

/// The avatar after one tick of input on a field of side `size`.
pub open spec fn moved(player: Player, size: usize, input: Input) -> Player {
    Player {
        x: shifted(player.x as nat, size as nat, input.left, input.right) as usize,
        z: shifted(player.z as nat, size as nat, input.up, input.down) as usize,
        facing: turned(player.facing, input),
    }
}

/// Moving keeps an avatar that stands on the field on the field.
pub proof fn lemma_moved_stays_on_field(player: Player, size: usize, input: Input)
    requires
        player.x < size,
        player.z < size,
    ensures
        moved(player, size, input).x < size,
        moved(player, size, input).z < size,
{
}

/// Moving takes the avatar at most one tile along each axis.
pub proof fn lemma_moved_one_step(player: Player, size: usize, input: Input)
    ensures
        moved(player, size, input).x - player.x <= 1,
        player.x - moved(player, size, input).x <= 1,
        moved(player, size, input).z - player.z <= 1,
        player.z - moved(player, size, input).z <= 1,
        !input.spec_any_direction() ==> moved(player, size, input) == player,
{
}

impl Player {
    /// The avatar as it enters the game: on the tile `(0, 0)`, looking down.
    pub fn new() -> (player: Player)
        ensures
            player == (Player { x: 0, z: 0, facing: Facing::Down }),
    {
        Player { x: 0, z: 0, facing: Facing::Down }
    }

    /// Puts the avatar back for a fresh attempt: on the tile `(0, 0)`,
    /// looking up.
    pub fn reset(&mut self)
        ensures
            *final(self) == (Player { x: 0, z: 0, facing: Facing::Up }),
    {
        self.x = 0;
        self.z = 0;
        self.facing = Facing::Up;
    }

    /// Moves the avatar by one tick of input on a field of side `size`, and
    /// says whether a direction key was down. Each key moves the avatar one
    /// tile unless the edge of the field is in the way: up raises `z`, down
    /// lowers it, left raises `x`, right lowers it.
    pub fn step(&mut self, size: usize, input: &Input) -> (stepped: bool)
        ensures
            *final(self) == moved(*old(self), size, *input),
            stepped == input.spec_any_direction(),
    {
        if input.up {
            if self.z < size && self.z + 1 < size {
                self.z = self.z + 1;
            }
            self.facing = Facing::Up;
        }
        if input.down {
            if self.z > 0 {
                self.z = self.z - 1;
            }
            self.facing = Facing::Down;
        }
        if input.left {
            if self.x < size && self.x + 1 < size {
                self.x = self.x + 1;
            }
            self.facing = Facing::Left;
        }
        if input.right {
            if self.x > 0 {
                self.x = self.x - 1;
            }
            self.facing = Facing::Right;
        }
        input.any_direction()
    }
}

} // verus!

// The two player identities and the serve that belongs to each.

use vstd::prelude::*;

verus! {

/// Speed of a serve along the x axis, in world units per second.
pub const SERVE_SPEED: i64 = 100;

/// A velocity in the plane, each component in world units per second.
#[derive(Clone, Copy, Debug, PartialEq, Eq, Structural)]
pub struct Velocity {
    pub x: i64,
    pub y: i64,
}

impl Velocity {
    /// A velocity without rotation, from its two components.
    pub fn linear(x: i64, y: i64) -> (v: Velocity)
        ensures
            v == (Velocity { x, y }),
    {
        Velocity { x, y }
    }
}

/// One of the two players.
#[derive(Clone, Copy, Debug, PartialEq, Eq, Structural, Hash)]
pub enum Player {
    Player1,
    Player2,
}

impl Player {
    /// The velocity a ball is launched with when this player serves:
    /// the first player serves toward +x, the second toward -x.
    pub open spec fn serve(self) -> Velocity {
        match self {
            Player::Player1 => Velocity { x: 100, y: 0 },
            Player::Player2 => Velocity { x: -100i64, y: 0 },
        }
    }

    /// The number under which this player's points are kept.
    pub open spec fn slot(self) -> u8 {
        match self {
            Player::Player1 => 1,
            Player::Player2 => 2,
        }
    }

    /// The player that a drawn boolean selects: the first on `true`,
    /// the second on `false`.
    pub open spec fn drawn(heads: bool) -> Player {
        if heads {
            Player::Player1
        } else {
            Player::Player2
        }
    }

    pub fn start_speed(&self) -> (v: Velocity)
        ensures
            v == self.serve(),
    {
        match self {
            Player::Player1 => Velocity::linear(SERVE_SPEED, 0),
            Player::Player2 => Velocity::linear(-SERVE_SPEED, 0),
        }
    }

    pub fn key(&self) -> (k: u8)
        ensures
            k == self.slot(),
    {
        match self {
            Player::Player1 => 1,
            Player::Player2 => 2,
        }
    }

    pub fn from_draw(heads: bool) -> (p: Player)
        ensures
            p == Player::drawn(heads),
    {
        if heads {
            Player::Player1
        } else {
            Player::Player2
        }
    }
}

} // verus!

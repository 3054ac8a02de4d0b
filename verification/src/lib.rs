// Simulation core of a two-player paddle-and-ball arcade game.
//
// Lengths are counted in millionths of a world unit and durations in
// microseconds, so a speed given in world units per second is the same
// number in length steps per time step.

pub mod ball;
pub mod detect;
pub mod events;
pub mod game;
pub mod input;
pub mod paddle;
pub mod player;
pub mod score;
pub mod spawn;

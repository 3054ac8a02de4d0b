// The scene as shipped: what stands in the field when play begins.

use vstd::prelude::*;
use crate::ball::{Ball, Position};
use crate::detect::GoalSensor;
use crate::input::Key;
use crate::paddle::Paddle;
use crate::player::{Player, Velocity, SERVE_SPEED};
use crate::score::ScoreDisplay;

verus! {

/// Identifier of the sensor at the right edge of the shipped scene.
pub const RIGHT_GOAL: u64 = 0;

/// Identifier of the sensor at the left edge of the shipped scene.
pub const LEFT_GOAL: u64 = 1;

/// The ball as it is first put into play: at the centre, moving toward
/// +x at serve speed, touching nothing.
pub open spec fn first_ball(ball: Ball) -> bool {
    &&& ball.position == (Position { x: 0, y: 0 })
    &&& ball.velocity == (Velocity { x: SERVE_SPEED, y: 0 })
    &&& ball.touching@ == Seq::<u64>::empty()
}

/// Adds the two goal sensors: the one at the right edge, tagged with the
/// first player, then the one at the left edge, tagged with the second.
pub fn spawn_border(goals: &mut Vec<GoalSensor>)
    ensures
        final(goals)@ == old(goals)@ + seq![
            GoalSensor { entity: RIGHT_GOAL, player: Player::Player1 },
            GoalSensor { entity: LEFT_GOAL, player: Player::Player2 },
        ],
{
    goals.push(GoalSensor { entity: RIGHT_GOAL, player: Player::Player1 });
    goals.push(GoalSensor { entity: LEFT_GOAL, player: Player::Player2 });
    assert(goals@ =~= old(goals)@ + seq![
        GoalSensor { entity: RIGHT_GOAL, player: Player::Player1 },
        GoalSensor { entity: LEFT_GOAL, player: Player::Player2 },
    ]);
}

/// Adds the two paddles at mid height: the left one, moved with W and S,
/// then the right one, moved with the arrow keys.
pub fn spawn_players(paddles: &mut Vec<Paddle>)
    ensures
        final(paddles)@ == old(paddles)@ + seq![
            Paddle { move_up: Key::KeyW, move_down: Key::KeyS, y: 0 },
            Paddle { move_up: Key::ArrowUp, move_down: Key::ArrowDown, y: 0 },
        ],
{
    paddles.push(Paddle::new(Key::KeyW, Key::KeyS));
    paddles.push(Paddle::new(Key::ArrowUp, Key::ArrowDown));
    assert(paddles@ =~= old(paddles)@ + seq![
        Paddle { move_up: Key::KeyW, move_down: Key::KeyS, y: 0 },
        Paddle { move_up: Key::ArrowUp, move_down: Key::ArrowDown, y: 0 },
    ]);
}

/// Adds one ball at the centre of the field, moving toward +x at serve
/// speed.
pub fn spawn_ball(balls: &mut Vec<Ball>)
    ensures
        final(balls)@.len() == old(balls)@.len() + 1,
        final(balls)@.drop_last() == old(balls)@,
        first_ball(final(balls)@.last()),
{
    balls.push(Ball::new(Position { x: 0, y: 0 }, Velocity::linear(SERVE_SPEED, 0)));
    assert(balls@.drop_last() =~= old(balls)@);
}

/// Adds a display of zero for each player, the first player's first.
pub fn spawn_score(displays: &mut Vec<ScoreDisplay>)
    ensures
        final(displays)@ == old(displays)@ + seq![
            ScoreDisplay { owner: Player::Player1, value: 0 },
            ScoreDisplay { owner: Player::Player2, value: 0 },
        ],
{
    displays.push(ScoreDisplay { owner: Player::Player1, value: 0 });
    displays.push(ScoreDisplay { owner: Player::Player2, value: 0 });
    assert(displays@ =~= old(displays)@ + seq![
        ScoreDisplay { owner: Player::Player1, value: 0 },
        ScoreDisplay { owner: Player::Player2, value: 0 },
    ]);
}

} // verus!

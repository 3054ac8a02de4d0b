// The ball and the handler that serves it anew.

use vstd::prelude::*;
use crate::events::GameEvents;
use crate::player::{Player, Velocity};

verus! {

/// A point of the playfield, in length steps from its centre.
#[derive(Clone, Copy, Debug, PartialEq, Eq, Structural)]
pub struct Position {
    pub x: i64,
    pub y: i64,
}

/// A ball: where it is, how it moves, and the entities it is touching
/// on this tick, each by its identifier.
#[derive(Clone, Debug)]
pub struct Ball {
    pub position: Position,
    pub velocity: Velocity,
    pub touching: Vec<u64>,
}

impl Ball {
    /// This ball as `player` serves it: at the centre of the field, with
    /// that player's launch velocity. Its contacts are not touched.
    pub open spec fn served_by(self, player: Player) -> Ball {
        Ball {
            position: Position { x: 0, y: 0 },
            velocity: player.serve(),
            touching: self.touching,
        }
    }

    /// A ball at `position` moving with `velocity`, touching nothing.
    pub fn new(position: Position, velocity: Velocity) -> (ball: Ball)
        ensures
            ball.position == position,
            ball.velocity == velocity,
            ball.touching@ == Seq::<u64>::empty(),
    {
        Ball { position, velocity, touching: Vec::new() }
    }

    /// Puts this ball at the centre of the field and launches it as
    /// `player` serves.
    pub fn reset(&mut self, player: Player)
        ensures
            *final(self) == old(self).served_by(player),
    {
        self.position = Position { x: 0, y: 0 };
        self.velocity = player.start_speed();
    }
}

/// The player of the last `ResetBall` among `events`, if there is one.
pub open spec fn last_reset(events: Seq<GameEvents>) -> Option<Player>
    decreases events.len(),
{
    if events.len() == 0 {
        None
    } else {
        match events.last() {
            GameEvents::ResetBall(player) => Some(player),
            GameEvents::GainPoint(_) => last_reset(events.drop_last()),
        }
    }
}

/// The balls after the reset handler has seen `events`: where a
/// `ResetBall` is among them, every ball is served by the player of the
/// last one; where none is, the balls are as they were.
pub open spec fn balls_after(balls: Seq<Ball>, events: Seq<GameEvents>) -> Seq<Ball> {
    match last_reset(events) {
        Some(player) => Seq::new(balls.len(), |i: int| balls[i].served_by(player)),
        None => balls,
    }
}

/// The player whose serve stands once `events` are handled: that of the
/// last `ResetBall` among them, if there is one.
pub fn last_serve(events: &Vec<GameEvents>) -> (server: Option<Player>)
    ensures
        server == last_reset(events@),
{
    let mut i: usize = events.len();
    assert(events@.take(i as int) =~= events@);
    while i > 0
        invariant
            i <= events@.len(),
            last_reset(events@) == last_reset(events@.take(i as int)),
        decreases i,
    {
        assert(events@.take(i as int).drop_last() =~= events@.take(i - 1));
        if let GameEvents::ResetBall(player) = events[i - 1] {
            return Some(player);
        }
        i -= 1;
    }
    None
}

/// Handles the `ResetBall` events among `events`, in the order in which
/// they were sent: each puts every ball at the centre of the field and
/// launches it as the event's player serves. After several such events
/// the balls move as the last one says.
pub fn reset_ball(balls: &mut Vec<Ball>, events: &Vec<GameEvents>)
    ensures
        final(balls)@ == balls_after(old(balls)@, events@),
{
    let mut i: usize = 0;
    assert(events@.take(0) =~= Seq::<GameEvents>::empty());
    while i < events.len()
        invariant
            i <= events@.len(),
            balls@ == balls_after(old(balls)@, events@.take(i as int)),
        decreases events@.len() - i,
    {
        proof {
            assert(events@.take(i + 1).drop_last() =~= events@.take(i as int));
            assert(events@.take(i + 1).last() == events@[i as int]);
        }
        if let GameEvents::ResetBall(player) = events[i] {
            let ghost before = balls@;
            let mut j: usize = 0;
            while j < balls.len()
                invariant
                    j <= balls@.len(),
                    balls@.len() == before.len(),
                    before.len() == old(balls)@.len(),
                    forall|k: int| 0 <= k < j ==> balls@[k] == old(balls)@[k].served_by(player),
                    forall|k: int| j <= k < balls@.len() ==> balls@[k] == before[k],
                    forall|k: int|
                        0 <= k < before.len() ==> (#[trigger] before[k]).touching == old(
                            balls,
                        )@[k].touching,
                decreases balls@.len() - j,
            {
                assert(before[j as int].touching == old(balls)@[j as int].touching);
                balls[j].reset(player);
                j += 1;
            }
            assert(balls@ =~= balls_after(old(balls)@, events@.take(i + 1)));
        }
        i += 1;
    }
    assert(events@.take(events@.len() as int) =~= events@);
}

/// Serving twice in a row by one player leaves a ball as serving once
/// does.
pub proof fn lemma_reset_twice_is_reset_once(ball: Ball, player: Player)
    ensures
        ball.served_by(player).served_by(player) == ball.served_by(player),
        ball.served_by(player).position == (Position { x: 0, y: 0 }),
        ball.served_by(player).velocity == player.serve(),
{
}

/// Handling the same `ResetBall` event twice in sequence leaves every
/// ball as handling it once does: at the centre, launched as the event's
/// player serves.
pub proof fn lemma_reset_event_twice_is_once(balls: Seq<Ball>, player: Player)
    ensures
        balls_after(
            balls_after(balls, seq![GameEvents::ResetBall(player)]),
            seq![GameEvents::ResetBall(player)],
        ) == balls_after(balls, seq![GameEvents::ResetBall(player)]),
        balls_after(balls, seq![GameEvents::ResetBall(player), GameEvents::ResetBall(player)])
            == balls_after(balls, seq![GameEvents::ResetBall(player)]),
        forall|i: int|
            0 <= i < balls.len() ==> {
                let ball = #[trigger] balls_after(balls, seq![GameEvents::ResetBall(player)])[i];
                ball.position == (Position { x: 0, y: 0 }) && ball.velocity == player.serve()
            },
{
    let once = seq![GameEvents::ResetBall(player)];
    let twice = seq![GameEvents::ResetBall(player), GameEvents::ResetBall(player)];
    assert(last_reset(once) == Some(player));
    assert(last_reset(twice) == Some(player));
    assert(balls_after(balls_after(balls, once), once) =~= balls_after(balls, once));
    assert(balls_after(balls, twice) =~= balls_after(balls, once));
}

} // verus!

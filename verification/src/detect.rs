// Goal detection: from the reset key and the ball's contacts to events.

use vstd::prelude::*;
use rand::Rng;
use crate::ball::Ball;
use crate::events::{EventQueue, GameEvents};
use crate::input::{Input, Key};
use crate::player::Player;

verus! {

/// A trigger region at an edge of the field. It carries the player who
/// gains the point, and serves next, when the ball enters it.
#[derive(Clone, Copy, Debug, PartialEq, Eq, Structural)]
pub struct GoalSensor {
    pub entity: u64,
    pub player: Player,
}

/// The player of the first sensor among `goals` whose identifier is
/// `hit`, if there is one.
pub open spec fn sensor_player(goals: Seq<GoalSensor>, hit: u64) -> Option<Player>
    decreases goals.len(),
{
    if goals.len() == 0 {
        None
    } else if goals.first().entity == hit {
        Some(goals.first().player)
    } else {
        sensor_player(goals.drop_first(), hit)
    }
}

/// The events that one contact gives rise to: a new serve and a point
/// for the sensor's player where the entity touched is a sensor, nothing
/// where it is not.
pub open spec fn contact_events(goals: Seq<GoalSensor>, hit: u64) -> Seq<GameEvents> {
    match sensor_player(goals, hit) {
        Some(player) => seq![GameEvents::ResetBall(player), GameEvents::GainPoint(player)],
        None => Seq::empty(),
    }
}

/// The events of the contacts `touching` of one ball, contact by contact.
pub open spec fn ball_events(goals: Seq<GoalSensor>, touching: Seq<u64>) -> Seq<GameEvents>
    decreases touching.len(),
{
    if touching.len() == 0 {
        Seq::empty()
    } else {
        ball_events(goals, touching.drop_last()) + contact_events(goals, touching.last())
    }
}

/// The events of the contacts of all `balls`, ball by ball.
pub open spec fn goal_events(balls: Seq<Ball>, goals: Seq<GoalSensor>) -> Seq<GameEvents>
    decreases balls.len(),
{
    if balls.len() == 0 {
        Seq::empty()
    } else {
        goal_events(balls.drop_last(), goals) + ball_events(goals, balls.last().touching@)
    }
}

/// The events of one tick. Where the reset key went down on this tick
/// there is one new serve, by the player that `heads` selects, and the
/// contacts are not looked at. Otherwise the events are those of the
/// contacts.
pub open spec fn detected(
    input: Input,
    balls: Seq<Ball>,
    goals: Seq<GoalSensor>,
    heads: bool,
) -> Seq<GameEvents> {
    if input.is_fresh(Key::KeyR) {
        seq![GameEvents::ResetBall(Player::drawn(heads))]
    } else {
        goal_events(balls, goals)
    }
}

/// Draws one boolean with `rand::Rng::gen` from the generator that
/// `rand::thread_rng` hands out. The outcome is a matter of chance, so
/// nothing is claimed of it. The generator is seeded by the operating
/// system when a thread first asks for it, and `rand` panics where the
/// system gives it no seed.
#[verifier::external_body]
fn flip() -> (heads: bool) {
    rand::thread_rng().gen::<bool>()
}

/// Looks `hit` up among the sensors.
pub fn find_goal(goals: &Vec<GoalSensor>, hit: u64) -> (found: Option<Player>)
    ensures
        found == sensor_player(goals@, hit),
{
    let mut i: usize = 0;
    assert(goals@.skip(0) =~= goals@);
    while i < goals.len()
        invariant
            i <= goals@.len(),
            sensor_player(goals@, hit) == sensor_player(goals@.skip(i as int), hit),
        decreases goals@.len() - i,
    {
        if goals[i].entity == hit {
            return Some(goals[i].player);
        }
        assert(goals@.skip(i as int).drop_first() =~= goals@.skip(i + 1));
        i += 1;
    }
    None
}

/// Sends, for every ball and every sensor it is touching, a new serve
/// and a point for that sensor's player.
pub fn detect_goals(balls: &Vec<Ball>, goals: &Vec<GoalSensor>, events: &mut EventQueue)
    ensures
        final(events)@ == old(events)@ + goal_events(balls@, goals@),
{
    let mut b: usize = 0;
    assert(balls@.take(0) =~= Seq::<Ball>::empty());
    assert(old(events)@ + Seq::<GameEvents>::empty() =~= old(events)@);
    while b < balls.len()
        invariant
            b <= balls@.len(),
            events@ == old(events)@ + goal_events(balls@.take(b as int), goals@),
        decreases balls@.len() - b,
    {
        let ghost sent = events@;
        let touching = &balls[b].touching;
        let mut h: usize = 0;
        assert(touching@.take(0) =~= Seq::<u64>::empty());
        assert(sent + Seq::<GameEvents>::empty() =~= sent);
        while h < touching.len()
            invariant
                h <= touching@.len(),
                events@ == sent + ball_events(goals@, touching@.take(h as int)),
            decreases touching@.len() - h,
        {
            let ghost so_far = ball_events(goals@, touching@.take(h as int));
            proof {
                assert(touching@.take(h + 1).drop_last() =~= touching@.take(h as int));
                assert(touching@.take(h + 1).last() == touching@[h as int]);
            }
            if let Some(player) = find_goal(goals, touching[h]) {
                events.send(GameEvents::ResetBall(player));
                events.send(GameEvents::GainPoint(player));
            }
            assert(events@ =~= sent + (so_far + contact_events(goals@, touching@[h as int])));
            h += 1;
        }
        proof {
            assert(touching@.take(touching@.len() as int) =~= touching@);
            assert(balls@.take(b + 1).drop_last() =~= balls@.take(b as int));
            assert(balls@.take(b + 1).last() == balls@[b as int]);
            assert(events@ =~= old(events)@ + goal_events(balls@.take(b + 1), goals@));
        }
        b += 1;
    }
    assert(balls@.take(balls@.len() as int) =~= balls@);
}

/// Goal detection with the draw given: where the reset key went down on
/// this tick, sends one new serve by the player that `heads` selects and
/// looks no further; otherwise sends the events of the ball's contacts.
pub fn detect_reset_drawn(
    input: &Input,
    balls: &Vec<Ball>,
    goals: &Vec<GoalSensor>,
    heads: bool,
    events: &mut EventQueue,
)
    ensures
        final(events)@ == old(events)@ + detected(*input, balls@, goals@, heads),
{
    if input.just_pressed(Key::KeyR) {
        events.send(GameEvents::ResetBall(Player::from_draw(heads)));
        assert(events@ =~= old(events)@ + detected(*input, balls@, goals@, heads));
        return;
    }
    detect_goals(balls, goals, events);
}

/// Goal detection for one tick. Where the reset key went down on this
/// tick, one player is drawn at random and one new serve by that player
/// is sent, and nothing else. Otherwise every contact of a ball with a
/// sensor sends a new serve and a point for the sensor's player.
pub fn detect_reset(
    input: &Input,
    balls: &Vec<Ball>,
    goals: &Vec<GoalSensor>,
    events: &mut EventQueue,
)
    ensures
        final(events)@ == old(events)@ + detected(*input, balls@, goals@, true) || final(events)@
            == old(events)@ + detected(*input, balls@, goals@, false),
        !input.is_fresh(Key::KeyR) ==> final(events)@ == old(events)@ + goal_events(
            balls@,
            goals@,
        ),
{
    if input.just_pressed(Key::KeyR) {
        let heads: bool = flip();
        detect_reset_drawn(input, balls, goals, heads, events);
    } else {
        detect_goals(balls, goals, events);
    }
}

/// How many of `events` ask for a new serve.
pub open spec fn resets(events: Seq<GameEvents>) -> nat
    decreases events.len(),
{
    if events.len() == 0 {
        0
    } else {
        let earlier = resets(events.drop_last());
        match events.last() {
            GameEvents::ResetBall(_) => earlier + 1,
            GameEvents::GainPoint(_) => earlier,
        }
    }
}

/// How many new serves goal detection asks for over a run of ticks, one
/// input and one draw for each, while the contacts stay as they are.
pub open spec fn resets_over(
    inputs: Seq<Input>,
    draws: Seq<bool>,
    balls: Seq<Ball>,
    goals: Seq<GoalSensor>,
) -> nat
    decreases inputs.len(),
{
    if inputs.len() == 0 {
        0
    } else {
        resets_over(inputs.drop_last(), draws.drop_last(), balls, goals) + resets(
            detected(inputs.last(), balls, goals, draws.last()),
        )
    }
}

/// The reset key acts on its edge. Where it goes down on the first tick
/// of a run and does not go down again, however long it is held, and no
/// ball touches a sensor, the whole run asks for exactly one new serve:
/// the first tick sends it, and no later tick sends anything.
pub proof fn lemma_held_reset_key_serves_once(
    inputs: Seq<Input>,
    draws: Seq<bool>,
    balls: Seq<Ball>,
    goals: Seq<GoalSensor>,
)
    requires
        inputs.len() >= 1,
        draws.len() == inputs.len(),
        inputs[0].is_fresh(Key::KeyR),
        forall|i: int| 1 <= i < inputs.len() ==> !inputs[i].is_fresh(Key::KeyR),
        goal_events(balls, goals) == Seq::<GameEvents>::empty(),
    ensures
        resets_over(inputs, draws, balls, goals) == 1,
        detected(inputs[0], balls, goals, draws[0]) == seq![
            GameEvents::ResetBall(Player::drawn(draws[0])),
        ],
        forall|i: int|
            1 <= i < inputs.len() ==> #[trigger] detected(inputs[i], balls, goals, draws[i])
                == Seq::<GameEvents>::empty(),
    decreases inputs.len(),
{
    let first = seq![GameEvents::ResetBall(Player::drawn(draws[0]))];
    assert(first.drop_last() =~= Seq::<GameEvents>::empty());
    assert(resets(first) == 1) by {
        reveal_with_fuel(resets, 2);
    }
    if inputs.len() == 1 {
        assert(inputs.drop_last().len() == 0);
        assert(resets_over(inputs.drop_last(), draws.drop_last(), balls, goals) == 0);
    } else {
        lemma_held_reset_key_serves_once(inputs.drop_last(), draws.drop_last(), balls, goals);
        assert(resets(detected(inputs.last(), balls, goals, draws.last())) == 0);
    }
}

} // verus!

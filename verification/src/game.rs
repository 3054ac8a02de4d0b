// The frame scheduler: a scene and the order of the systems in a tick.

use vstd::prelude::*;
use crate::ball::{balls_after, last_reset, reset_ball, Ball};
use crate::detect::{detect_reset, detect_reset_drawn, detected, GoalSensor};
use crate::events::{EventQueue, GameEvents};
use crate::input::{Input, Key};
use crate::paddle::{move_paddle, paddles_follow, Paddle, Playfield, UNIT};
use crate::player::Player;
use crate::score::{
    can_book, displays_follow, gains, points_after, score_run, Score, ScoreDisplay,
};
use crate::spawn::{
    first_ball, spawn_ball, spawn_border, spawn_players, spawn_score, LEFT_GOAL, RIGHT_GOAL,
};

verus! {

/// Everything a tick reads and writes.
pub struct Game {
    pub field: Playfield,
    pub paddles: Vec<Paddle>,
    pub balls: Vec<Ball>,
    pub goals: Vec<GoalSensor>,
    pub displays: Vec<ScoreDisplay>,
    pub scores: Score,
    pub events: EventQueue,
}

impl Game {
    /// The events that the post-update phase of a tick sees: what was
    /// pending before, then what goal detection sends.
    pub open spec fn sent_in(self, input: Input, heads: bool) -> Seq<GameEvents> {
        self.events@ + detected(input, self.balls@, self.goals@, heads)
    }

    /// Booking the events of a tick keeps every player's points in range.
    pub open spec fn fits(self, input: Input, heads: bool) -> bool {
        forall|player: Player|
            points_after(self.scores.points(player), self.sent_in(input, heads), player)
                <= u32::MAX
    }

    /// `next` is this game after the update phase of a tick: the paddles
    /// have moved, goal detection has sent its events, and the rest is as
    /// it was.
    pub open spec fn updated(self, next: Game, input: Input, dt: u64, heads: bool) -> bool {
        &&& next.field == self.field
        &&& paddles_follow(self.paddles@, next.paddles@, input, dt, self.field)
        &&& next.balls@ == self.balls@
        &&& next.goals@ == self.goals@
        &&& next.displays@ == self.displays@
        &&& next.scores == self.scores
        &&& next.events@ == self.sent_in(input, heads)
    }

    /// `next` is this game after the post-update phase of a tick: the
    /// pending events have reset the balls and are booked, the queue is
    /// empty, and the rest is as it was.
    pub open spec fn settled(self, next: Game) -> bool {
        &&& next.field == self.field
        &&& next.paddles@ == self.paddles@
        &&& next.goals@ == self.goals@
        &&& next.balls@ == balls_after(self.balls@, self.events@)
        &&& displays_follow(self.displays@, next.displays@, self.scores, self.events@)
        &&& forall|player: Player| #[trigger]
            next.scores.points(player) == points_after(
                self.scores.points(player),
                self.events@,
                player,
            )
        &&& next.events@ == Seq::<GameEvents>::empty()
    }

    /// `next` is this game after one whole tick: the update phase, then
    /// the post-update phase on the events it sent.
    pub open spec fn ticked(self, next: Game, input: Input, dt: u64, heads: bool) -> bool {
        &&& next.field == self.field
        &&& paddles_follow(self.paddles@, next.paddles@, input, dt, self.field)
        &&& next.goals@ == self.goals@
        &&& next.balls@ == balls_after(self.balls@, self.sent_in(input, heads))
        &&& displays_follow(
            self.displays@,
            next.displays@,
            self.scores,
            self.sent_in(input, heads),
        )
        &&& forall|player: Player| #[trigger]
            next.scores.points(player) == points_after(
                self.scores.points(player),
                self.sent_in(input, heads),
                player,
            )
        &&& next.events@ == Seq::<GameEvents>::empty()
    }

    /// The scene as shipped: the standard field; a left paddle on W and
    /// S and a right paddle on the arrow keys, both at mid height; one
    /// ball at the centre, launched toward +x; the right sensor tagged
    /// with the first player and the left one with the second; a display
    /// of zero for each player; nobody with a point; nothing pending.
    pub fn new() -> (game: Game)
        ensures
            game.field.spec_half_height() == 360 * UNIT,
            game.field.spec_half_paddle() == 75 * UNIT,
            game.paddles@ == seq![
                Paddle { move_up: Key::KeyW, move_down: Key::KeyS, y: 0 },
                Paddle { move_up: Key::ArrowUp, move_down: Key::ArrowDown, y: 0 },
            ],
            game.balls@.len() == 1,
            first_ball(game.balls@[0]),
            game.goals@ == seq![
                GoalSensor { entity: RIGHT_GOAL, player: Player::Player1 },
                GoalSensor { entity: LEFT_GOAL, player: Player::Player2 },
            ],
            game.displays@ == seq![
                ScoreDisplay { owner: Player::Player1, value: 0 },
                ScoreDisplay { owner: Player::Player2, value: 0 },
            ],
            forall|player: Player| game.scores.points(player) == 0,
            game.events@ == Seq::<GameEvents>::empty(),
    {
        let mut paddles: Vec<Paddle> = Vec::new();
        spawn_players(&mut paddles);
        let mut balls: Vec<Ball> = Vec::new();
        spawn_ball(&mut balls);
        let mut goals: Vec<GoalSensor> = Vec::new();
        spawn_border(&mut goals);
        let mut displays: Vec<ScoreDisplay> = Vec::new();
        spawn_score(&mut displays);
        let game = Game {
            field: Playfield::standard(),
            paddles,
            balls,
            goals,
            displays,
            scores: Score::new(),
            events: EventQueue::new(),
        };
        assert(game.paddles@ =~= seq![
            Paddle { move_up: Key::KeyW, move_down: Key::KeyS, y: 0 },
            Paddle { move_up: Key::ArrowUp, move_down: Key::ArrowDown, y: 0 },
        ]);
        assert(game.goals@ =~= seq![
            GoalSensor { entity: RIGHT_GOAL, player: Player::Player1 },
            GoalSensor { entity: LEFT_GOAL, player: Player::Player2 },
        ]);
        assert(game.displays@ =~= seq![
            ScoreDisplay { owner: Player::Player1, value: 0 },
            ScoreDisplay { owner: Player::Player2, value: 0 },
        ]);
        game
    }

    /// The update phase with the draw given: paddle motion, then goal
    /// detection.
    pub fn update_drawn(&mut self, input: &Input, dt: u64, heads: bool)
        ensures
            old(self).updated(*final(self), *input, dt, heads),
    {
        move_paddle(&mut self.paddles, input, dt, &self.field);
        detect_reset_drawn(input, &self.balls, &self.goals, heads, &mut self.events);
    }

    /// The update phase: paddle motion, then goal detection, which draws
    /// a player at random where the reset key went down.
    pub fn update(&mut self, input: &Input, dt: u64)
        ensures
            old(self).updated(*final(self), *input, dt, true) || old(self).updated(
                *final(self),
                *input,
                dt,
                false,
            ),
    {
        move_paddle(&mut self.paddles, input, dt, &self.field);
        detect_reset(input, &self.balls, &self.goals, &mut self.events);
    }

    /// The post-update phase: the reset handler and the score handler
    /// each see every pending event, and the queue is emptied so that
    /// the next tick sees none of them.
    pub fn post_update(&mut self)
        requires
            forall|player: Player|
                points_after(old(self).scores.points(player), old(self).events@, player)
                    <= u32::MAX,
        ensures
            old(self).settled(*final(self)),
    {
        let events: Vec<GameEvents> = self.events.drain();
        reset_ball(&mut self.balls, &events);
        score_run(&events, &mut self.displays, &mut self.scores);
    }

    /// One tick with the draw given: the update phase, then the
    /// post-update phase.
    pub fn tick_drawn(&mut self, input: &Input, dt: u64, heads: bool)
        requires
            old(self).fits(*input, heads),
        ensures
            old(self).ticked(*final(self), *input, dt, heads),
    {
        self.update_drawn(input, dt, heads);
        self.post_update();
    }

    /// Whether the events of a tick under `input`, with the draw given,
    /// can be booked with every player's points still in range.
    pub fn can_tick(&self, input: &Input, heads: bool) -> (ok: bool)
        ensures
            ok == self.fits(*input, heads),
    {
        let pending = self.events.read();
        let mut probe = EventQueue::new();
        let mut i: usize = 0;
        while i < pending.len()
            invariant
                i <= pending@.len(),
                probe@ == pending@.take(i as int),
            decreases pending@.len() - i,
        {
            probe.send(pending[i]);
            assert(pending@.take(i + 1) =~= pending@.take(i as int).push(pending@[i as int]));
            i += 1;
        }
        assert(pending@.take(pending@.len() as int) =~= pending@);
        detect_reset_drawn(input, &self.balls, &self.goals, heads, &mut probe);
        can_book(probe.read(), &self.scores)
    }

    /// One tick with the draw given, where its events can be booked with
    /// every player's points still in range; where they cannot, the
    /// game stays as it is. Says which of the two it was.
    pub fn try_tick_drawn(&mut self, input: &Input, dt: u64, heads: bool) -> (done: bool)
        ensures
            done == old(self).fits(*input, heads),
            done ==> old(self).ticked(*final(self), *input, dt, heads),
            !done ==> *final(self) == *old(self),
    {
        if self.can_tick(input, heads) {
            self.tick_drawn(input, dt, heads);
            true
        } else {
            false
        }
    }

    /// One tick, where its events can be booked with every player's
    /// points still in range whatever is drawn; where they cannot, the
    /// game stays as it is. Says which of the two it was.
    pub fn try_tick(&mut self, input: &Input, dt: u64) -> (done: bool)
        ensures
            done == (old(self).fits(*input, true) && old(self).fits(*input, false)),
            done ==> old(self).ticked(*final(self), *input, dt, true) || old(self).ticked(
                *final(self),
                *input,
                dt,
                false,
            ),
            !done ==> *final(self) == *old(self),
    {
        if self.can_tick(input, true) && self.can_tick(input, false) {
            self.tick(input, dt);
            true
        } else {
            false
        }
    }

    /// One tick: the update phase, then the post-update phase.
    pub fn tick(&mut self, input: &Input, dt: u64)
        requires
            old(self).fits(*input, true),
            old(self).fits(*input, false),
        ensures
            old(self).ticked(*final(self), *input, dt, true) || old(self).ticked(
                *final(self),
                *input,
                dt,
                false,
            ),
    {
        self.update(input, dt);
        self.post_update();
    }
}

/// A goal is settled within its tick. Where the only events of a tick
/// are the new serve and the point of one contact with a sensor of
/// `player`, the tick ends with every ball at the centre, launched as
/// `player` serves, with one point more for `player` and the other
/// player's points as they were.
pub proof fn lemma_goal_settles_in_its_tick(
    game: Game,
    next: Game,
    input: Input,
    dt: u64,
    heads: bool,
    player: Player,
)
    requires
        game.ticked(next, input, dt, heads),
        game.sent_in(input, heads) == seq![
            GameEvents::ResetBall(player),
            GameEvents::GainPoint(player),
        ],
    ensures
        next.balls@.len() == game.balls@.len(),
        forall|i: int|
            0 <= i < game.balls@.len() ==> #[trigger] next.balls@[i] == game.balls@[i].served_by(
                player,
            ),
        next.scores.points(player) == game.scores.points(player) + 1,
        forall|other: Player|
            other != player ==> next.scores.points(other) == game.scores.points(other),
        next.events@.len() == 0,
{
    let sent = game.sent_in(input, heads);
    assert(sent.drop_last() =~= seq![GameEvents::ResetBall(player)]);
    assert(sent.drop_last().drop_last() =~= Seq::<GameEvents>::empty());
    reveal_with_fuel(last_reset, 3);
    reveal_with_fuel(gains, 3);
    assert(last_reset(sent) == Some(player));
    assert(gains(sent, player) == 1);
    assert forall|other: Player| other != player implies next.scores.points(other)
        == game.scores.points(other) by {
        assert(gains(sent, other) == 0);
    }
}

/// No event outlives its tick: the tick after one that has run to its
/// end sees what its own goal detection sends, and nothing older.
pub proof fn lemma_events_end_with_their_tick(
    game: Game,
    next: Game,
    input: Input,
    dt: u64,
    heads: bool,
    later_input: Input,
    later_heads: bool,
)
    requires
        game.ticked(next, input, dt, heads),
    ensures
        next.sent_in(later_input, later_heads) == detected(
            later_input,
            next.balls@,
            next.goals@,
            later_heads,
        ),
{
    assert(next.sent_in(later_input, later_heads) =~= detected(
        later_input,
        next.balls@,
        next.goals@,
        later_heads,
    ));
}

} // verus!

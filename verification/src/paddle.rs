// Paddles, the playfield that bounds them, and their motion from input.

use vstd::prelude::*;
use crate::input::{Input, Key};

verus! {

/// Length steps in one world unit.
pub const UNIT: i64 = 1_000_000;

/// Speed of a paddle while one of its keys is down, in world units per
/// second.
pub const PADDLE_SPEED: i64 = 100;

/// Height of the playfield, in length steps.
pub const WINDOW_HEIGHT: i64 = 720_000_000;

/// Height of a paddle, in length steps.
pub const PADDLE_HEIGHT: i64 = 150_000_000;

/// The vertical extent of the playfield and of the paddles in it, each
/// as half a height in length steps.
#[derive(Clone, Copy, Debug)]
pub struct Playfield {
    half_height: i64,
    half_paddle: i64,
}

impl Playfield {
    /// A paddle fits into the field.
    #[verifier::type_invariant]
    pub closed spec fn wf(self) -> bool {
        0 <= self.half_paddle <= self.half_height
    }

    pub closed spec fn spec_half_height(self) -> int {
        self.half_height as int
    }

    pub closed spec fn spec_half_paddle(self) -> int {
        self.half_paddle as int
    }

    /// The highest y a paddle's centre may take.
    pub open spec fn top(self) -> int {
        self.spec_half_height() - self.spec_half_paddle()
    }

    /// The lowest y a paddle's centre may take.
    pub open spec fn bottom(self) -> int {
        -self.spec_half_height() + self.spec_half_paddle()
    }

    /// `y` lies in the range left to a paddle's centre.
    pub open spec fn admits(self, y: int) -> bool {
        self.bottom() <= y <= self.top()
    }

    /// A field of the given half height for paddles of the given half
    /// height, where such paddles fit into it.
    pub fn new(half_height: i64, half_paddle: i64) -> (field: Option<Playfield>)
        ensures
            field.is_some() <==> 0 <= half_paddle <= half_height,
            field matches Some(f) ==> f.wf() && f.spec_half_height() == half_height
                && f.spec_half_paddle() == half_paddle,
    {
        if 0 <= half_paddle && half_paddle <= half_height {
            Some(Playfield { half_height, half_paddle })
        } else {
            None
        }
    }

    /// The field of the game as shipped: 720 units high, with paddles of
    /// 150 units.
    pub fn standard() -> (field: Playfield)
        ensures
            field.wf(),
            field.spec_half_height() == 360 * UNIT,
            field.spec_half_paddle() == 75 * UNIT,
    {
        Playfield { half_height: WINDOW_HEIGHT / 2, half_paddle: PADDLE_HEIGHT / 2 }
    }

    pub fn half_height(&self) -> (h: i64)
        ensures
            h == self.spec_half_height(),
    {
        self.half_height
    }

    pub fn half_paddle(&self) -> (h: i64)
        ensures
            h == self.spec_half_paddle(),
    {
        self.half_paddle
    }

    pub fn highest(&self) -> (y: i64)
        ensures
            y == self.top(),
            self.bottom() <= self.top(),
    {
        proof {
            use_type_invariant(self);
        }
        self.half_height - self.half_paddle
    }

    pub fn lowest(&self) -> (y: i64)
        ensures
            y == self.bottom(),
            self.bottom() <= self.top(),
    {
        proof {
            use_type_invariant(self);
        }
        -self.half_height + self.half_paddle
    }
}

/// `v` brought into `[lo, hi]`.
pub open spec fn clamp(v: int, lo: int, hi: int) -> int {
    if v < lo {
        lo
    } else if v > hi {
        hi
    } else {
        v
    }
}

/// Where a paddle at `y` stands after one adjustment by `step`: moved,
/// then brought back into the field.
pub open spec fn nudged(y: int, step: int, field: Playfield) -> int {
    clamp(y + step, field.bottom(), field.top())
}

/// Where a paddle at `y` stands after a tick of `dt` microseconds. The
/// "up" key raises it by speed times `dt`, the "down" key lowers it by
/// as much, and each adjustment is clamped on its own, the upward one
/// first.
pub open spec fn moved(y: int, up: bool, down: bool, dt: nat, field: Playfield) -> int {
    let raised = if up {
        nudged(y, PADDLE_SPEED * dt, field)
    } else {
        y
    };
    if down {
        nudged(raised, -(PADDLE_SPEED * dt), field)
    } else {
        raised
    }
}

/// One adjustment of a paddle's position.
fn nudge(y: i64, step: i128, field: &Playfield) -> (r: i64)
    requires
        -(PADDLE_SPEED * u64::MAX) <= step <= PADDLE_SPEED * u64::MAX,
    ensures
        r == nudged(y as int, step as int, *field),
        field.admits(r as int),
{
    let lo: i64 = field.lowest();
    let hi: i64 = field.highest();
    let target: i128 = y as i128 + step;
    if target < lo as i128 {
        lo
    } else if target > hi as i128 {
        hi
    } else {
        target as i64
    }
}

/// A paddle: the two keys that move it, and the y of its centre in
/// length steps.
#[derive(Clone, Copy, Debug, PartialEq, Eq, Structural)]
pub struct Paddle {
    pub move_up: Key,
    pub move_down: Key,
    pub y: i64,
}

impl Paddle {
    /// The y of this paddle after a tick of `dt` microseconds under
    /// `input`.
    pub open spec fn next_y(self, input: Input, dt: u64, field: Playfield) -> int {
        moved(
            self.y as int,
            input.is_held(self.move_up),
            input.is_held(self.move_down),
            dt as nat,
            field,
        )
    }

    /// A paddle at the middle of the field.
    pub fn new(move_up: Key, move_down: Key) -> (paddle: Paddle)
        ensures
            paddle == (Paddle { move_up, move_down, y: 0 }),
    {
        Paddle { move_up, move_down, y: 0 }
    }

    /// Moves this paddle through one tick of `dt` microseconds.
    pub fn advance(&mut self, input: &Input, dt: u64, field: &Playfield)
        ensures
            final(self).move_up == old(self).move_up,
            final(self).move_down == old(self).move_down,
            final(self).y == old(self).next_y(*input, dt, *field),
            input.is_held(old(self).move_up) || input.is_held(old(self).move_down)
                || field.admits(old(self).y as int) ==> field.admits(final(self).y as int),
    {
        assert(PADDLE_SPEED * dt == 100 * dt) by (nonlinear_arith)
            requires
                PADDLE_SPEED == 100,
        ;
        let step: i128 = PADDLE_SPEED as i128 * dt as i128;
        if input.pressed(self.move_up) {
            self.y = nudge(self.y, step, field);
        }
        if input.pressed(self.move_down) {
            self.y = nudge(self.y, -step, field);
        }
    }
}

/// `after` are the paddles `before` once a tick of `dt` microseconds has
/// passed under `input`: each with its keys, and at the y that `next_y`
/// gives.
pub open spec fn paddles_follow(
    before: Seq<Paddle>,
    after: Seq<Paddle>,
    input: Input,
    dt: u64,
    field: Playfield,
) -> bool {
    &&& after.len() == before.len()
    &&& forall|i: int|
        0 <= i < before.len() ==> {
            &&& (#[trigger] after[i]).move_up == before[i].move_up
            &&& after[i].move_down == before[i].move_down
            &&& after[i].y == before[i].next_y(input, dt, field)
        }
}

/// Moves every paddle through one tick of `dt` microseconds: a paddle
/// whose "up" key is down rises by speed times `dt`, one whose "down" key
/// is down sinks by as much, and after each adjustment the paddle is
/// clamped into the field. A paddle with neither key down stays.
pub fn move_paddle(paddles: &mut Vec<Paddle>, input: &Input, dt: u64, field: &Playfield)
    ensures
        paddles_follow(old(paddles)@, final(paddles)@, *input, dt, *field),
        forall|i: int|
            0 <= i < old(paddles)@.len() && field.admits(old(paddles)@[i].y as int)
                ==> field.admits((#[trigger] final(paddles)@[i]).y as int),
{
    let mut i: usize = 0;
    while i < paddles.len()
        invariant
            i <= paddles@.len(),
            paddles@.len() == old(paddles)@.len(),
            forall|j: int|
                0 <= j < i ==> {
                    &&& (#[trigger] paddles@[j]).move_up == old(paddles)@[j].move_up
                    &&& paddles@[j].move_down == old(paddles)@[j].move_down
                    &&& paddles@[j].y == old(paddles)@[j].next_y(*input, dt, *field)
                    &&& field.admits(old(paddles)@[j].y as int) ==> field.admits(paddles@[j].y as int)
                },
            forall|j: int| i <= j < paddles@.len() ==> paddles@[j] == old(paddles)@[j],
        decreases paddles@.len() - i,
    {
        let mut paddle: Paddle = paddles[i];
        paddle.advance(input, dt, field);
        paddles.set(i, paddle);
        i += 1;
    }
}

/// What one tick asks of a paddle: whether its "up" key is down, whether
/// its "down" key is down, and the length of the tick in microseconds.
pub struct Pull {
    pub up: bool,
    pub down: bool,
    pub dt: nat,
}

/// Where a paddle that starts at `y` stands after the ticks of `pulls`,
/// taken in order.
pub open spec fn moved_through(y: int, pulls: Seq<Pull>, field: Playfield) -> int
    decreases pulls.len(),
{
    if pulls.len() == 0 {
        y
    } else {
        let before = moved_through(y, pulls.drop_last(), field);
        moved(before, pulls.last().up, pulls.last().down, pulls.last().dt, field)
    }
}

/// One tick leaves a paddle inside the field if it was inside before or
/// if one of its keys was down, however long the tick.
pub proof fn lemma_tick_keeps_paddle_in_field(
    y: int,
    up: bool,
    down: bool,
    dt: nat,
    field: Playfield,
)
    requires
        field.wf(),
        up || down || field.admits(y),
    ensures
        field.admits(moved(y, up, down, dt, field)),
{
}

/// A paddle that starts inside the field is inside the field after every
/// tick, whatever keys are down and however long they are held.
pub proof fn lemma_paddle_stays_in_field(y: int, pulls: Seq<Pull>, field: Playfield)
    requires
        field.wf(),
        field.admits(y),
    ensures
        field.admits(moved_through(y, pulls, field)),
    decreases pulls.len(),
{
    if pulls.len() > 0 {
        lemma_paddle_stays_in_field(y, pulls.drop_last(), field);
        let before = moved_through(y, pulls.drop_last(), field);
        lemma_tick_keeps_paddle_in_field(
            before,
            pulls.last().up,
            pulls.last().down,
            pulls.last().dt,
            field,
        );
    }
}

/// From the first tick on which one of its keys is down, a paddle is
/// inside the field, wherever it started.
pub proof fn lemma_moved_paddle_is_in_field(y: int, pulls: Seq<Pull>, field: Playfield)
    requires
        field.wf(),
        exists|i: int| 0 <= i < pulls.len() && (pulls[i].up || pulls[i].down),
    ensures
        field.admits(moved_through(y, pulls, field)),
    decreases pulls.len(),
{
    let last = pulls.last();
    let before = moved_through(y, pulls.drop_last(), field);
    if last.up || last.down {
        lemma_tick_keeps_paddle_in_field(before, last.up, last.down, last.dt, field);
    } else {
        let i = choose|i: int| 0 <= i < pulls.len() && (pulls[i].up || pulls[i].down);
        assert(pulls.drop_last()[i] == pulls[i]);
        lemma_moved_paddle_is_in_field(y, pulls.drop_last(), field);
        lemma_tick_keeps_paddle_in_field(before, last.up, last.down, last.dt, field);
    }
}

} // verus!

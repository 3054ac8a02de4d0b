// The score ledger and the handler that books points.

use vstd::prelude::*;
use crate::events::GameEvents;
use crate::player::Player;

verus! {

/// The points of each player. A player of whom nothing is booked yet has
/// none. The entries are kept in a `bevy_utils::HashMap` under each
/// player's slot; the verifier sees of it what `score_entries` names.
#[verifier::external_body]
pub struct Score {
    entries: bevy_utils::HashMap<u8, u32>,
}

/// The entries that a ledger's hash map holds, slot by slot.
pub uninterp spec fn score_entries(score: Score) -> Map<u8, u32>;

/// The number shown for one player.
#[derive(Clone, Copy, Debug, PartialEq, Eq, Structural)]
pub struct ScoreDisplay {
    pub owner: Player,
    pub value: u32,
}

/// How many of `events` give a point to `player`.
pub open spec fn gains(events: Seq<GameEvents>, player: Player) -> nat
    decreases events.len(),
{
    if events.len() == 0 {
        0
    } else {
        let earlier = gains(events.drop_last(), player);
        if events.last() == GameEvents::GainPoint(player) {
            earlier + 1
        } else {
            earlier
        }
    }
}

/// The points of `player` once `events` are booked on top of `points`.
pub open spec fn points_after(points: nat, events: Seq<GameEvents>, player: Player) -> nat {
    points + gains(events, player)
}

/// What a display shows once `events` are booked on top of the `points`
/// its owner had: the owner's new total where the owner gained a point,
/// and what it showed before where not.
pub open spec fn shown_after(display: ScoreDisplay, points: nat, events: Seq<GameEvents>) -> int {
    if gains(events, display.owner) > 0 {
        points_after(points, events, display.owner) as int
    } else {
        display.value as int
    }
}

/// `after` are the displays `before` once `events` are booked on top of
/// `scores`: each with its owner, and showing what `shown_after` says.
pub open spec fn displays_follow(
    before: Seq<ScoreDisplay>,
    after: Seq<ScoreDisplay>,
    scores: Score,
    events: Seq<GameEvents>,
) -> bool {
    &&& after.len() == before.len()
    &&& forall|i: int|
        0 <= i < before.len() ==> {
            &&& (#[trigger] after[i]).owner == before[i].owner
            &&& after[i].value == shown_after(before[i], scores.points(before[i].owner), events)
        }
}

impl Score {
    /// The points booked for `player`: the entry under the player's slot,
    /// or none where there is no such entry.
    pub open spec fn points(self, player: Player) -> nat {
        if score_entries(self).contains_key(player.slot()) {
            score_entries(self)[player.slot()] as nat
        } else {
            0
        }
    }

    /// Makes the hash map with `Default::default`, which for a
    /// `hashbrown::HashMap` gives a map without entries.
    #[verifier::external_body]
    fn empty() -> (ledger: Score)
        ensures
            forall|slot: u8| !score_entries(ledger).contains_key(slot),
    {
        Score { entries: Default::default() }
    }

    /// Calls `hashbrown::HashMap::get`: the value under `slot`, or `None`
    /// where the map has no such key.
    #[verifier::external_body]
    fn lookup(&self, slot: u8) -> (found: Option<u32>)
        ensures
            found == if score_entries(*self).contains_key(slot) {
                Some(score_entries(*self)[slot])
            } else {
                None
            },
    {
        self.entries.get(&slot).copied()
    }

    /// Calls `hashbrown::HashMap::insert`: afterwards the map holds
    /// `points` under `slot` and is otherwise as before; what was under
    /// `slot` before comes back.
    #[verifier::external_body]
    fn store(&mut self, slot: u8, points: u32) -> (replaced: Option<u32>)
        ensures
            score_entries(*final(self)) == score_entries(*old(self)).insert(slot, points),
            replaced == if score_entries(*old(self)).contains_key(slot) {
                Some(score_entries(*old(self))[slot])
            } else {
                None
            },
    {
        self.entries.insert(slot, points)
    }

    /// A ledger in which nobody has a point.
    pub fn new() -> (score: Score)
        ensures
            forall|player: Player| score.points(player) == 0,
    {
        Score::empty()
    }

    /// A ledger in which the first player has `first` points and the
    /// second player `second`.
    pub fn with_points(first: u32, second: u32) -> (score: Score)
        ensures
            score.points(Player::Player1) == first,
            score.points(Player::Player2) == second,
    {
        let mut score = Score::empty();
        score.store(Player::Player1.key(), first);
        score.store(Player::Player2.key(), second);
        score
    }

    /// The points of `player`, none where nothing is booked yet.
    pub fn get(&self, player: Player) -> (points: u32)
        ensures
            points == self.points(player),
    {
        match self.lookup(player.key()) {
            Some(points) => points,
            None => 0,
        }
    }

    /// Books one point for `player` and returns the new total.
    pub fn gain(&mut self, player: Player) -> (total: u32)
        requires
            old(self).points(player) < u32::MAX,
        ensures
            total == old(self).points(player) + 1,
            final(self).points(player) == total,
            forall|other: Player|
                other != player ==> final(self).points(other) == old(self).points(other),
    {
        let current: u32 = self.get(player);
        self.store(player.key(), current + 1);
        self.get(player)
    }
}

impl Default for Score {
    fn default() -> (score: Score)
        ensures
            forall|player: Player| score.points(player) == 0,
    {
        Score::new()
    }
}

/// A part of the events gives no more points than all of them.
proof fn lemma_gains_grow(events: Seq<GameEvents>, n: int, player: Player)
    requires
        0 <= n <= events.len(),
    ensures
        gains(events.take(n), player) <= gains(events, player),
    decreases events.len() - n,
{
    if n < events.len() {
        assert(events.take(n + 1).drop_last() =~= events.take(n));
        lemma_gains_grow(events, n + 1, player);
    } else {
        assert(events.take(n) =~= events);
    }
}

/// Counts the events among `events` that give a point to `player`.
pub fn count_gains(events: &Vec<GameEvents>, player: Player) -> (count: usize)
    ensures
        count == gains(events@, player),
{
    let mut count: usize = 0;
    let mut i: usize = 0;
    assert(events@.take(0) =~= Seq::<GameEvents>::empty());
    while i < events.len()
        invariant
            i <= events@.len(),
            count <= i,
            count == gains(events@.take(i as int), player),
        decreases events@.len() - i,
    {
        assert(events@.take(i + 1).drop_last() =~= events@.take(i as int));
        if events[i] == GameEvents::GainPoint(player) {
            count += 1;
        }
        i += 1;
    }
    assert(events@.take(events@.len() as int) =~= events@);
    count
}

/// Whether `events` can be booked on top of `scores` with every player's
/// points still in range.
pub fn can_book(events: &Vec<GameEvents>, scores: &Score) -> (ok: bool)
    ensures
        ok == forall|player: Player|
            points_after(scores.points(player), events@, player) <= u32::MAX,
{
    let first: u128 = scores.get(Player::Player1) as u128 + count_gains(
        events,
        Player::Player1,
    ) as u128;
    let second: u128 = scores.get(Player::Player2) as u128 + count_gains(
        events,
        Player::Player2,
    ) as u128;
    let ok: bool = first <= u32::MAX as u128 && second <= u32::MAX as u128;
    proof {
        if ok {
            assert forall|player: Player|
                points_after(scores.points(player), events@, player) <= u32::MAX by {
                match player {
                    Player::Player1 => {},
                    Player::Player2 => {},
                }
            }
        } else if first > u32::MAX {
            assert(points_after(scores.points(Player::Player1), events@, Player::Player1)
                > u32::MAX);
        } else {
            assert(points_after(scores.points(Player::Player2), events@, Player::Player2)
                > u32::MAX);
        }
    }
    ok
}

/// Books the `GainPoint` events among `events`, in the order in which
/// they were sent: each adds one to its player's points, and every
/// display of that player is then set to the new total.
pub fn score_run(events: &Vec<GameEvents>, displays: &mut Vec<ScoreDisplay>, scores: &mut Score)
    requires
        forall|player: Player|
            points_after(old(scores).points(player), events@, player) <= u32::MAX,
    ensures
        forall|player: Player| #[trigger]
            final(scores).points(player) == points_after(
                old(scores).points(player),
                events@,
                player,
            ),
        displays_follow(old(displays)@, final(displays)@, *old(scores), events@),
{
    let mut i: usize = 0;
    assert(events@.take(0) =~= Seq::<GameEvents>::empty());
    while i < events.len()
        invariant
            i <= events@.len(),
            forall|player: Player|
                points_after(old(scores).points(player), events@, player) <= u32::MAX,
            forall|player: Player| #[trigger]
                scores.points(player) == points_after(
                    old(scores).points(player),
                    events@.take(i as int),
                    player,
                ),
            displays_follow(old(displays)@, displays@, *old(scores), events@.take(i as int)),
        decreases events@.len() - i,
    {
        proof {
            assert(events@.take(i + 1).drop_last() =~= events@.take(i as int));
            assert(events@.take(i + 1).last() == events@[i as int]);
        }
        if let GameEvents::GainPoint(player) = events[i] {
            proof {
                lemma_gains_grow(events@, i + 1, player);
                assert(points_after(old(scores).points(player), events@, player) <= u32::MAX);
            }
            let total: u32 = scores.gain(player);
            let ghost shown = displays@;
            let mut k: usize = 0;
            while k < displays.len()
                invariant
                    k <= displays@.len(),
                    displays@.len() == shown.len(),
                    forall|m: int|
                        0 <= m < displays@.len() ==> (#[trigger] displays@[m]).owner
                            == shown[m].owner,
                    forall|m: int|
                        0 <= m < k ==> (#[trigger] displays@[m]).value == if shown[m].owner
                            == player {
                            total
                        } else {
                            shown[m].value
                        },
                    forall|m: int| k <= m < displays@.len() ==> displays@[m] == shown[m],
                decreases displays@.len() - k,
            {
                if displays[k].owner == player {
                    displays[k].value = total;
                }
                k += 1;
            }
        }
        i += 1;
    }
    assert(events@.take(events@.len() as int) =~= events@);
}

/// Books `events` as `score_run` does where every player's points stay in
/// range, and says so. Where they would not, nothing is booked and
/// nothing is shown.
pub fn try_score_run(
    events: &Vec<GameEvents>,
    displays: &mut Vec<ScoreDisplay>,
    scores: &mut Score,
) -> (booked: bool)
    ensures
        booked == forall|player: Player|
            points_after(old(scores).points(player), events@, player) <= u32::MAX,
        booked ==> forall|player: Player| #[trigger]
            final(scores).points(player) == points_after(
                old(scores).points(player),
                events@,
                player,
            ),
        booked ==> displays_follow(old(displays)@, final(displays)@, *old(scores), events@),
        !booked ==> *final(scores) == *old(scores) && final(displays)@ == old(displays)@,
{
    if can_book(events, scores) {
        score_run(events, displays, scores);
        true
    } else {
        false
    }
}

/// Where every one of `events` gives a point to the same player, that
/// player's points grow by the number of events, and the other player's
/// points stay.
pub proof fn lemma_points_grow_by_count(points: nat, events: Seq<GameEvents>, player: Player)
    requires
        forall|i: int| 0 <= i < events.len() ==> events[i] == GameEvents::GainPoint(player),
    ensures
        points_after(points, events, player) == points + events.len(),
        forall|other: Player| other != player ==> points_after(points, events, other) == points,
    decreases events.len(),
{
    if events.len() > 0 {
        lemma_points_grow_by_count(points, events.drop_last(), player);
        assert forall|other: Player| other != player implies points_after(points, events, other)
            == points by {
            assert(points_after(points, events.drop_last(), other) == points);
            assert(events.last() == GameEvents::GainPoint(player));
        }
    }
}

/// Booking events never takes a point away.
pub proof fn lemma_points_never_fall(points: nat, events: Seq<GameEvents>, player: Player)
    ensures
        points_after(points, events, player) >= points,
{
}

} // verus!

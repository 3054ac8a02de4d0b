// Game events and the queue that carries them through one tick.

use vstd::prelude::*;
use crate::player::Player;

verus! {

/// What goal detection tells the rest of the game.
#[derive(Clone, Copy, Debug, PartialEq, Eq, Structural)]
pub enum GameEvents {
    /// The ball is to be served anew by this player.
    ResetBall(Player),
    /// This player gains a point.
    GainPoint(Player),
}

/// The events of one tick, in the order in which they were sent. The
/// update phase sends, the post-update phase reads, and the queue is
/// emptied before the next tick.
pub struct EventQueue {
    pending: Vec<GameEvents>,
}

impl View for EventQueue {
    type V = Seq<GameEvents>;

    closed spec fn view(&self) -> Seq<GameEvents> {
        self.pending@
    }
}

impl EventQueue {
    /// A queue that holds nothing.
    pub fn new() -> (queue: EventQueue)
        ensures
            queue@ == Seq::<GameEvents>::empty(),
    {
        EventQueue { pending: Vec::new() }
    }

    /// Appends `event` behind the events already sent.
    pub fn send(&mut self, event: GameEvents)
        ensures
            final(self)@ == old(self)@.push(event),
    {
        self.pending.push(event);
    }

    /// The events sent since the queue was last emptied, oldest first.
    /// Reading removes nothing, so every reader of a phase sees them all.
    pub fn read(&self) -> (events: &Vec<GameEvents>)
        ensures
            events@ == self@,
    {
        &self.pending
    }

    pub fn len(&self) -> (n: usize)
        ensures
            n == self@.len(),
    {
        self.pending.len()
    }

    pub fn is_empty(&self) -> (empty: bool)
        ensures
            empty == (self@.len() == 0),
    {
        self.pending.len() == 0
    }

    /// Discards every event, so that none is delivered again.
    pub fn clear(&mut self)
        ensures
            final(self)@ == Seq::<GameEvents>::empty(),
    {
        self.pending.clear();
    }

    /// Hands out the events sent since the queue was last emptied, oldest
    /// first, and leaves the queue empty.
    pub fn drain(&mut self) -> (events: Vec<GameEvents>)
        ensures
            events@ == old(self)@,
            final(self)@ == Seq::<GameEvents>::empty(),
    {
        let mut events: Vec<GameEvents> = Vec::new();
        std::mem::swap(&mut events, &mut self.pending);
        events
    }
}

} // verus!

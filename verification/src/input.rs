// A snapshot of the logical keys for one tick.

use vstd::prelude::*;

verus! {

/// The logical keys the game listens to: two movement keys for each
/// paddle and the key that forces a new serve.
#[derive(Clone, Copy, Debug, PartialEq, Eq, Structural, Hash)]
pub enum Key {
    KeyW,
    KeyS,
    ArrowUp,
    ArrowDown,
    KeyR,
}

/// What the keyboard looks like during one tick: the keys that are down,
/// and the keys that went down since the tick before.
#[derive(Clone, Debug)]
pub struct Input {
    pub held: Vec<Key>,
    pub fresh: Vec<Key>,
}

/// Whether `key` occurs in `keys`.
fn holds(keys: &Vec<Key>, key: Key) -> (found: bool)
    ensures
        found == keys@.contains(key),
{
    let mut i: usize = 0;
    while i < keys.len()
        invariant
            i <= keys.len(),
            forall|j: int| 0 <= j < i ==> keys@[j] != key,
        decreases keys.len() - i,
    {
        if keys[i] == key {
            return true;
        }
        i += 1;
    }
    false
}

impl Input {
    /// `key` is down during this tick.
    pub open spec fn is_held(self, key: Key) -> bool {
        self.held@.contains(key)
    }

    /// `key` went down on this tick.
    pub open spec fn is_fresh(self, key: Key) -> bool {
        self.fresh@.contains(key)
    }

    /// A snapshot from the keys that are down and the keys that went
    /// down on this tick.
    pub fn new(held: Vec<Key>, fresh: Vec<Key>) -> (input: Input)
        ensures
            input.held == held,
            input.fresh == fresh,
    {
        Input { held, fresh }
    }

    /// The snapshot of an untouched keyboard.
    pub fn idle() -> (input: Input)
        ensures
            input.held@ == Seq::<Key>::empty(),
            input.fresh@ == Seq::<Key>::empty(),
            forall|key: Key| !input.is_held(key) && !input.is_fresh(key),
    {
        Input { held: Vec::new(), fresh: Vec::new() }
    }

    pub fn pressed(&self, key: Key) -> (down: bool)
        ensures
            down == self.is_held(key),
    {
        holds(&self.held, key)
    }

    pub fn just_pressed(&self, key: Key) -> (edge: bool)
        ensures
            edge == self.is_fresh(key),
    {
        holds(&self.fresh, key)
    }
}

} // verus!

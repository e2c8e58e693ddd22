//! Keyboard state.

use vstd::prelude::*;
use crate::input::key::Key;

verus! {

/// The keys that are held down in one frame.
#[derive(Debug, Clone)]
pub struct KeyboardState {
    pressed: Vec<Key>,
}

impl KeyboardState {
    /// The pressed keys, as they were given.
    pub closed spec fn view(&self) -> Seq<Key> {
        self.pressed@
    }

    /// The state in which exactly the keys of `pressed` are held down.
    pub fn new(pressed: Vec<Key>) -> (state: KeyboardState)
        ensures
            state@ == pressed@,
    {
        KeyboardState { pressed }
    }

    /// Whether `key` is held down.
    pub fn is_pressed(&self, key: Key) -> (r: bool)
        ensures
            r == self@.contains(key),
    {
        let mut i: usize = 0;
        while i < self.pressed.len()
            invariant
                i <= self.pressed@.len(),
                forall|j: int| 0 <= j < i ==> self.pressed@[j] != key,
            decreases self.pressed@.len() - i,
        {
            if self.pressed[i] == key {
                return true;
            }
            i = i + 1;
        }
        false
    }

    /// All keys that are held down.
    pub fn pressed_keys(&self) -> (keys: &[Key])
        ensures
            keys@ == self@,
    {
        self.pressed.as_slice()
    }
}

impl Default for KeyboardState {
    /// No key is held down.
    fn default() -> (state: KeyboardState)
        ensures
            state@ == Seq::<Key>::empty(),
    {
        KeyboardState { pressed: Vec::new() }
    }
}

} // verus!

//! Keyboard keys.

use vstd::prelude::*;

verus! {

/// A key of the keyboard.
#[derive(Debug, Clone, Copy, PartialEq, Eq, Hash, Structural)]
pub enum Key {
    A,
    D,
    W,
    S,
    Space,
    Escape,
    Left,
    Right,
    Up,
    Down,
}

} // verus!

//! Input state: a platform-agnostic snapshot of keyboard and mouse.

use vstd::prelude::*;

pub mod key;
pub mod keyboard;
pub mod mouse;

pub use crate::input::key::Key;
pub use crate::input::keyboard::KeyboardState;
pub use crate::input::mouse::MouseButtons;
pub use crate::input::mouse::MousePosition;
pub use crate::input::mouse::MouseState;

verus! {

/// All input of one frame. `F` is the scalar type of a coordinate.
#[derive(Debug, Clone)]
pub struct Input<F> {
    pub keyboard: KeyboardState,
    pub mouse: MouseState<F>,
}

} // verus!

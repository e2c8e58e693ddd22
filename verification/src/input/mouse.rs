//! Mouse state.

use vstd::prelude::*;

verus! {

/// The position of the mouse cursor. `F` is the scalar type of a
/// coordinate.
#[derive(Debug, Clone, Copy)]
pub struct MousePosition<F> {
    pub x: F,
    pub y: F,
}

/// Which buttons of the mouse are held down.
#[derive(Debug, Clone, Copy)]
pub struct MouseButtons {
    pub left: bool,
    pub right: bool,
    pub middle: bool,
}

/// The state of the mouse in one frame.
#[derive(Debug, Clone, Copy)]
pub struct MouseState<F> {
    pub position: MousePosition<F>,
    pub buttons: MouseButtons,
    pub wheel_delta: F,
}

impl<F: Default> Default for MousePosition<F> {
    /// The default coordinate on both axes.
    fn default() -> (position: MousePosition<F>)
        ensures
            call_ensures(F::default, (), position.x),
            call_ensures(F::default, (), position.y),
    {
        MousePosition { x: F::default(), y: F::default() }
    }
}

impl Default for MouseButtons {
    /// No button is held down.
    fn default() -> (buttons: MouseButtons)
        ensures
            !buttons.left,
            !buttons.right,
            !buttons.middle,
    {
        MouseButtons { left: false, right: false, middle: false }
    }
}

impl<F: Default> Default for MouseState<F> {
    /// The cursor at the default position, no button held down, the wheel
    /// at rest.
    fn default() -> (state: MouseState<F>)
        ensures
            call_ensures(F::default, (), state.position.x),
            call_ensures(F::default, (), state.position.y),
            !state.buttons.left,
            !state.buttons.right,
            !state.buttons.middle,
            call_ensures(F::default, (), state.wheel_delta),
    {
        MouseState {
            position: MousePosition::default(),
            buttons: MouseButtons::default(),
            wheel_delta: F::default(),
        }
    }
}

} // verus!

//! The shared state of a frame.

use vstd::prelude::*;
use crate::input::Input;
use crate::time::Time;

verus! {

/// The time and input state of the current frame, as one value.
pub struct Resources<F> {
    pub time: Time<F>,
    pub input: Input<F>,
}

} // verus!

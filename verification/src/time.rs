//! Frame timing.
//!
//! The engine counts frames and carries the time span of the current frame
//! from whoever measures it to the systems that use it. It does not compute
//! with time spans: `D` is the type of one, chosen by the host program.

use vstd::prelude::*;

verus! {

/// The time state of the current frame.
#[derive(Debug, Clone, Copy)]
pub struct Time<D> {
    /// The time span since the last frame.
    pub delta: D,
    /// The number of frames since the start.
    pub frame: u64,
}

/// The time span of the current frame, set at the start of each frame.
#[derive(Debug, Clone, Copy)]
pub struct FrameDelta<D> {
    /// The time span of this frame.
    pub dt: D,
}

impl<D> Time<D> {
    /// Moves on to the next frame: `dt` becomes the delta and the frame
    /// count goes up by one. The count must leave room for the next frame.
    pub fn advance(&mut self, dt: D)
        requires
            old(self).frame < u64::MAX,
        ensures
            final(self).delta == dt,
            final(self).frame == old(self).frame + 1,
    {
        self.delta = dt;
        self.frame = self.frame + 1;
    }
}

impl<D: Default> Default for Time<D> {
    /// The state before the first frame: the default time span and no
    /// frame counted.
    fn default() -> (time: Time<D>)
        ensures
            call_ensures(D::default, (), time.delta),
            time.frame == 0,
    {
        Time { delta: D::default(), frame: 0 }
    }
}

impl<D: Default> Default for FrameDelta<D> {
    /// The default time span.
    fn default() -> (delta: FrameDelta<D>)
        ensures
            call_ensures(D::default, (), delta.dt),
    {
        FrameDelta { dt: D::default() }
    }
}

} // verus!

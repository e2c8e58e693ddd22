//! Frame output.

use vstd::prelude::*;
use crate::render::RenderCommand;

verus! {

/// What one frame hands to the renderer: the render instructions of the
/// frame, in the order in which they are to be carried out.
pub struct FrameOutput<F> {
    pub render_commands: Vec<RenderCommand<F>>,
}

} // verus!

//! The rendering boundary.
//!
//! What is drawn, and how, is decided outside the engine. The engine only
//! defines the shape of a render instruction. `F` is the scalar type of a
//! coordinate.

use vstd::prelude::*;

verus! {

/// Where a mesh is drawn. For two dimensions, leave `z` at zero.
#[derive(Debug, Clone, Copy)]
pub struct Transform<F> {
    pub x: F,
    pub y: F,
    pub z: F,
}

/// The identifier of a mesh resource.
#[derive(Debug, Clone, Copy)]
pub struct MeshId(pub usize);

/// An instruction to draw one mesh at one place.
pub struct RenderCommand<F> {
    pub transform: Transform<F>,
    pub mesh: MeshId,
}

} // verus!

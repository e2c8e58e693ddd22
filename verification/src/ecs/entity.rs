//! Entity handles.
//!
//! A handle names an id together with the generation at which the id was
//! issued. Handles are plain data: two handles are the same entity exactly
//! when both fields agree.

use vstd::prelude::*;

verus! {

/// A handle to an entity in a world.
///
/// The generation guards against stale handles: once the entity is
/// despawned, the world's stored generation for `id` moves on and the handle
/// no longer matches.
#[derive(Debug, Copy, Clone, PartialEq, Eq, Hash, Structural)]
pub struct Entity {
    pub id: usize,
    pub generation: usize,
}

impl Entity {
    /// Builds a handle from an id and a generation.
    pub fn new(id: usize, generation: usize) -> (e: Entity)
        ensures
            e == (Entity { id, generation }),
    {
        Entity { id, generation }
    }
}

} // verus!

//! A minimalist entity-component-system runtime.
//!
//! The world owns every entity, component and resource; systems are run
//! against it one at a time, in registration order.

pub mod ecs;
pub mod input;
pub mod render;
pub mod runtime;
pub mod time;

pub use crate::ecs::entity::Entity;
pub use crate::ecs::world::World;
pub use crate::runtime::engine::Engine;

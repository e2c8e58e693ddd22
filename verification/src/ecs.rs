//! The entity-component-system core: entity identity, component and resource
//! storage, and component-set queries.

pub mod components;
pub mod entity;
pub mod errors;
pub mod query;
pub mod table;
pub mod tag;
pub mod trace;
pub mod world;

pub use crate::ecs::world::World;

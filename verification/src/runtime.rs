//! Engine runtime: system scheduling and frame orchestration.

pub mod engine;
pub mod frame;
pub mod resources;
pub mod schedule;

//! Component types that the engine ships with.
//!
//! `F` is the scalar type of a coordinate, chosen by the host program. The
//! engine stores and moves these values; it does not compute with them.

use vstd::prelude::*;

verus! {

/// The location of an entity in space. For two dimensions, leave `z` at
/// zero.
#[derive(Debug, Clone, Copy, PartialEq)]
pub struct Position<F> {
    pub x: F,
    pub y: F,
    pub z: F,
}

/// The movement of an entity: the change of its position per frame, along
/// each axis. For two dimensions, leave `dz` at zero.
#[derive(Debug, Clone, Copy, PartialEq)]
pub struct Velocity<F> {
    /// Change in x per frame.
    pub dx: F,
    /// Change in y per frame.
    pub dy: F,
    /// Change in z per frame.
    pub dz: F,
}

/// The colour of an entity, for render systems that draw it.
#[derive(Debug, Clone, Copy, PartialEq, Eq, Structural)]
pub struct Color {
    /// Red.
    pub r: u8,
    /// Green.
    pub g: u8,
    /// Blue.
    pub b: u8,
    /// Alpha: 0 is transparent, 255 opaque.
    pub a: u8,
}

} // verus!

//! The error kinds that world operations report.
//!
//! Every kind is recoverable: the caller decides whether absence is expected
//! or exceptional.

use vstd::prelude::*;

verus! {

/// Why a component could not be inserted.
#[derive(Debug, PartialEq, Eq, Structural)]
pub enum InsertComponentError {
    /// The entity is not alive.
    DeadEntity,
}

/// Why a component could not be read.
#[derive(Debug, PartialEq, Eq, Structural)]
pub enum GetComponentError {
    /// The entity is not alive.
    DeadEntity,
    /// The entity is alive but holds no component under the tag.
    NotFound,
}

/// Why a component could not be borrowed mutably.
#[derive(Debug, PartialEq, Eq, Structural)]
pub enum GetComponentMutError {
    /// The entity is not alive.
    DeadEntity,
    /// The entity is alive but holds no component under the tag.
    NotFound,
}

/// Why a component could not be removed.
#[derive(Debug, PartialEq, Eq, Structural)]
pub enum RemoveComponentError {
    /// The entity is not alive.
    DeadEntity,
    /// The entity is alive but holds no component under the tag.
    NotFound,
}

/// Why the presence of a component could not be decided.
#[derive(Debug, PartialEq, Eq, Structural)]
pub enum HasComponentError {
    /// The entity is not alive.
    DeadEntity,
}

/// Why a resource could not be accessed.
#[derive(Debug, PartialEq, Eq, Structural)]
pub enum ResourceError {
    /// No resource is stored under the tag.
    Missing,
}

} // verus!

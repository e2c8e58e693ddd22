//! Type tags.
//!
//! A world stores payloads of one opaque type and tells their logical types
//! apart by a tag that travels with each stored value.

use vstd::prelude::*;

verus! {

/// The stable identifier of a logical component or resource type.
///
/// Consumers pick one tag per logical type and keep the tags distinct within
/// a program; the world never interprets the number.
#[derive(Debug, Copy, Clone, PartialEq, Eq, Hash, Structural)]
pub struct TypeTag(pub u64);

} // verus!

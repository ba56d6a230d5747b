//! What can stand in a node of the tree.
use vstd::prelude::*;

verus! {

/// Marks a type whose values can be attached to a tree node.
pub trait Node {}

impl Node for String {}

} // verus!

//! How a node's box is placed and what it shows past its edges.
use vstd::prelude::*;

use super::common::{Scalar, SideMeasures};

verus! {

/// Whether a node flows with its siblings or is placed by its four offsets.
#[derive(Debug, Clone, Copy)]
pub enum Position {
    Flow,
    Absolute(SideMeasures<Scalar>),
}

impl Default for Position {
    fn default() -> (r: Position)
        ensures
            r is Flow,
    {
        Position::Flow
    }
}

/// What happens to content past a node's box.
#[derive(Debug, Clone, Copy, PartialEq, Eq, Structural)]
pub enum Overflow {
    Visible,
    Hidden,
    Scroll,
}

impl Default for Overflow {
    fn default() -> (r: Overflow)
        ensures
            r == Overflow::Visible,
    {
        Overflow::Visible
    }
}

/// How many grid tracks a node spans.
#[derive(Debug, Clone, Copy, PartialEq, Eq, Structural)]
pub enum Span {
    Amount(u32),
    End,
}

impl Default for Span {
    fn default() -> (r: Span)
        ensures
            r == Span::Amount(1),
    {
        Span::Amount(1)
    }
}

} // verus!

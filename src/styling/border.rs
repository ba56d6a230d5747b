//! Border strokes and corner radii.
use vstd::prelude::*;

use super::common::Scalar;

verus! {

/// One value for each corner of a box.
#[derive(Debug, Default, Clone, Copy, PartialEq, Eq, Structural)]
pub struct CornerMeasures {
    pub upper_left: Scalar,
    pub upper_right: Scalar,
    pub lower_right: Scalar,
    pub lower_left: Scalar,
}

impl CornerMeasures {
    /// The same value on all four corners.
    pub fn new(size: Scalar) -> (r: CornerMeasures)
        ensures
            r == (CornerMeasures { upper_left: size, upper_right: size, lower_right: size, lower_left: size }),
    {
        CornerMeasures { upper_left: size, upper_right: size, lower_right: size, lower_left: size }
    }

    /// Each corner given, clockwise from the upper left.
    pub fn make(upper_left: Scalar, upper_right: Scalar, lower_right: Scalar, lower_left: Scalar) -> (r: CornerMeasures)
        ensures
            r == (CornerMeasures { upper_left, upper_right, lower_right, lower_left }),
    {
        CornerMeasures { upper_left, upper_right, lower_right, lower_left }
    }
}

/// The stroke of a border side.
#[derive(Debug, Clone, Copy, PartialEq, Eq, Structural)]
pub enum Kind {
    Solid,
    Dotted { size: u32, spacing: u32 },
    Dashed { size: u32, spacing: u32 },
}

impl Default for Kind {
    fn default() -> (r: Kind)
        ensures
            r == Kind::Solid,
    {
        Kind::Solid
    }
}

} // verus!

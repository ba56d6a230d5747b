//! Measures shared by the other style groups.
use vstd::prelude::*;

verus! {

/// Alignment along one axis.
#[derive(Debug, Clone, Copy, PartialEq, Eq, Structural)]
pub enum Align {
    Stretch,
    Start,
    End,
    Center,
}

impl Default for Align {
    fn default() -> (r: Align)
        ensures
            r == Align::Stretch,
    {
        Align::Stretch
    }
}

/// A length: automatic, zero, a percentage or a pixel count.
#[derive(Debug, Clone, Copy, PartialEq, Eq, Structural)]
pub enum Scalar {
    Auto,
    Zero,
    Pc(i32),
    Px(i32),
}

impl Default for Scalar {
    fn default() -> (r: Scalar)
        ensures
            r == Scalar::Auto,
    {
        Scalar::Auto
    }
}

/// One value for each side of a box.
#[derive(Debug, Default, Clone, Copy)]
pub struct SideMeasures<T> {
    pub top: T,
    pub right: T,
    pub bottom: T,
    pub left: T,
}

impl<T: Default + Copy> SideMeasures<T> {
    /// The same value on all four sides.
    pub fn new(size: T) -> (r: SideMeasures<T>)
        ensures
            r.top == size && r.right == size && r.bottom == size && r.left == size,
    {
        SideMeasures { top: size, right: size, bottom: size, left: size }
    }

    /// Each side given, clockwise from the top.
    pub fn make(top: T, right: T, bottom: T, left: T) -> (r: SideMeasures<T>)
        ensures
            r.top == top && r.right == right && r.bottom == bottom && r.left == left,
    {
        SideMeasures { top, right, bottom, left }
    }

    /// `size` on top, the default on the other sides.
    pub fn top(size: T) -> (r: SideMeasures<T>)
        ensures
            r.top == size,
            r.right == r.bottom && r.bottom == r.left,
    {
        let rest = T::default();
        SideMeasures { top: size, right: rest, bottom: rest, left: rest }
    }

    /// `size` on the right, the default on the other sides.
    pub fn right(size: T) -> (r: SideMeasures<T>)
        ensures
            r.right == size,
            r.top == r.bottom && r.bottom == r.left,
    {
        let rest = T::default();
        SideMeasures { top: rest, right: size, bottom: rest, left: rest }
    }

    /// `size` at the bottom, the default on the other sides.
    pub fn bottom(size: T) -> (r: SideMeasures<T>)
        ensures
            r.bottom == size,
            r.top == r.right && r.right == r.left,
    {
        let rest = T::default();
        SideMeasures { top: rest, right: rest, bottom: size, left: rest }
    }

    /// `size` on the left, the default on the other sides.
    pub fn left(size: T) -> (r: SideMeasures<T>)
        ensures
            r.left == size,
            r.top == r.right && r.right == r.bottom,
    {
        let rest = T::default();
        SideMeasures { top: rest, right: rest, bottom: rest, left: size }
    }

    /// One value for top and bottom, another for left and right.
    pub fn make_hor_vert(top_bottom: T, left_right: T) -> (r: SideMeasures<T>)
        ensures
            r.top == top_bottom && r.bottom == top_bottom,
            r.left == left_right && r.right == left_right,
    {
        SideMeasures { top: top_bottom, right: left_right, bottom: top_bottom, left: left_right }
    }
}

} // verus!

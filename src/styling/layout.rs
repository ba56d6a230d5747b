//! How a node lays out its children.
use vstd::prelude::*;

use super::common::{Align, Scalar};

verus! {

/// The axis along which children are laid out.
#[derive(Debug, Clone, Copy, PartialEq, Eq, Structural)]
pub enum Flow {
    Row,
    Column,
}

impl Default for Flow {
    fn default() -> (r: Flow)
        ensures
            r == Flow::Row,
    {
        Flow::Row
    }
}

/// Whether children are laid out in order or reversed.
#[derive(Debug, Clone, Copy, PartialEq, Eq, Structural)]
pub enum Order {
    Forward,
    Reverse,
}

impl Default for Order {
    fn default() -> (r: Order)
        ensures
            r == Order::Forward,
    {
        Order::Forward
    }
}

/// The space between children, across and along the rows.
#[derive(Debug, Default, Clone, Copy, PartialEq, Eq, Structural)]
pub struct Gap {
    pub horizontal: Scalar,
    pub vertical: Scalar,
}

impl Gap {
    /// The same gap both ways.
    pub fn uniform(amount: Scalar) -> (r: Gap)
        ensures
            r == (Gap { horizontal: amount, vertical: amount }),
    {
        Gap { horizontal: amount, vertical: amount }
    }

    /// A horizontal gap; the vertical one is the default.
    pub fn horizontal(amount: Scalar) -> (r: Gap)
        ensures
            r == (Gap { horizontal: amount, vertical: Scalar::Auto }),
    {
        Gap { horizontal: amount, vertical: Scalar::default() }
    }

    /// A vertical gap; the horizontal one is the default.
    pub fn vertical(amount: Scalar) -> (r: Gap)
        ensures
            r == (Gap { horizontal: Scalar::Auto, vertical: amount }),
    {
        Gap { horizontal: Scalar::default(), vertical: amount }
    }

    /// Both gaps given.
    pub fn both(horizontal: Scalar, vertical: Scalar) -> (r: Gap)
        ensures
            r == (Gap { horizontal, vertical }),
    {
        Gap { horizontal, vertical }
    }
}

/// How the size of a grid track is chosen.
#[derive(Debug, Clone, Copy, PartialEq, Eq, Structural)]
pub enum SizePolicy {
    Auto,
    Zero,
    Fr(u32),
    Pc(u32),
    Px(u32),
    Min(Scalar),
    Max(Scalar),
    Range(Scalar, Scalar),
}

impl SizePolicy {
    /// `count` copies of `policy`.
    pub fn repeat(count: usize, policy: SizePolicy) -> (r: Vec<SizePolicy>)
        ensures
            r@ == Seq::new(count as nat, |i: int| policy),
    {
        let mut r: Vec<SizePolicy> = Vec::new();
        let mut i: usize = 0;
        while i < count
            invariant
                i <= count,
                r@ == Seq::new(i as nat, |j: int| policy),
            decreases count - i,
        {
            r.push(policy);
            i += 1;
            assert(r@ =~= Seq::new(i as nat, |j: int| policy));
        }
        r
    }
}

impl Default for SizePolicy {
    fn default() -> (r: SizePolicy)
        ensures
            r == SizePolicy::Auto,
    {
        SizePolicy::Auto
    }
}

/// The tracks of a grid, as columns or as rows.
#[derive(Debug, Clone, PartialEq, Eq)]
pub enum Template {
    Columns(Vec<SizePolicy>),
    Rows(Vec<SizePolicy>),
}

impl Default for Template {
    /// One column that takes all the room.
    fn default() -> (r: Template)
        ensures
            r matches Template::Columns(tracks) && tracks@ == seq![SizePolicy::Fr(1)],
    {
        Template::Columns(vec![SizePolicy::Fr(1)])
    }
}

/// A complete layout choice.
#[derive(Debug, Default, Clone, PartialEq, Eq)]
pub struct Layout {
    pub flow: Flow,
    pub order: Order,
    pub gap: Gap,
    pub template: Template,
    pub align_h: Align,
    pub align_v: Align,
}

} // verus!

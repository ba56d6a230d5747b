//! How text is cut and broken.
use vstd::prelude::*;

verus! {

/// How text past a node's box is cut.
#[derive(Debug, Clone, Copy, PartialEq, Eq, Structural)]
pub enum Overflow {
    Hidden,
    Ellipsis,
}

impl Default for Overflow {
    fn default() -> (r: Overflow)
        ensures
            r == Overflow::Ellipsis,
    {
        Overflow::Ellipsis
    }
}

/// Where long lines of text break.
#[derive(Debug, Clone, Copy, PartialEq, Eq, Structural)]
pub enum Wrap {
    NoWrap,
    Word,
    Letter,
}

impl Default for Wrap {
    fn default() -> (r: Wrap)
        ensures
            r == Wrap::Word,
    {
        Wrap::Word
    }
}

} // verus!

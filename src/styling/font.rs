//! Typeface choice.
use vstd::prelude::*;

verus! {

/// The typeface: the default one or one loaded from a location.
#[derive(Debug, Clone, PartialEq, Eq)]
pub enum Family {
    Default,
    Url(String),
}

impl Default for Family {
    fn default() -> (r: Family)
        ensures
            r == Family::Default,
    {
        Family::Default
    }
}

/// The width of the glyphs.
#[derive(Debug, Clone, Copy, PartialEq, Eq, Structural)]
pub enum Stretch {
    Normal,
    Expanded,
    Condensed,
}

impl Default for Stretch {
    fn default() -> (r: Stretch)
        ensures
            r == Stretch::Normal,
    {
        Stretch::Normal
    }
}

/// The slant of the glyphs.
#[derive(Debug, Clone, Copy, PartialEq, Eq, Structural)]
pub enum Modifier {
    Normal,
    Italic,
    Oblique,
    Both,
}

impl Default for Modifier {
    fn default() -> (r: Modifier)
        ensures
            r == Modifier::Normal,
    {
        Modifier::Normal
    }
}

/// A complete font choice.
#[derive(Debug, Default, Clone, PartialEq, Eq)]
pub struct Font {
    pub family: Family,
    pub stretch: Stretch,
    pub style: Modifier,
    pub weight: u16,
}

/// A partial font choice: the parts that are set override a base choice.
#[derive(Debug, Default, Clone, PartialEq, Eq)]
pub struct Modifiers {
    pub family: Option<Family>,
    pub stretch: Option<Stretch>,
    pub style: Option<Modifier>,
    pub weight: Option<u16>,
}

} // verus!

//! A second, finer-grained style vocabulary, grouped by concern: measures,
//! borders, fonts, frames, layout and text.
use vstd::prelude::*;

pub mod border;
pub mod common;
pub mod font;
pub mod frame;
pub mod layout;
pub mod text;

verus! {

/// What a selection gesture selects.
#[derive(Debug, Clone, Copy, PartialEq, Eq, Structural)]
pub enum SelectMode {
    All,
    Text,
}

impl Default for SelectMode {
    fn default() -> (r: SelectMode)
        ensures
            r == SelectMode::All,
    {
        SelectMode::All
    }
}

/// The pointer shape over a node, or an image loaded from a location.
#[derive(Debug, Clone, PartialEq, Eq)]
pub enum Cursor {
    Default,
    Hidden,
    Menu,
    Help,
    Pointer,
    Progress,
    Hourglass,
    Text,
    Copy,
    Move,
    Grab,
    Grabbing,
    Prohibited,
    Enlarge,
    ResizeHorizontal,
    ResizeVertical,
    ZoomIn,
    ZoomOut,
    Url(String),
}

impl Default for Cursor {
    fn default() -> (r: Cursor)
        ensures
            r == Cursor::Default,
    {
        Cursor::Default
    }
}

} // verus!

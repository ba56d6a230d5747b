//! Style values that callers attach to nodes by id: plain data, each with
//! its default.
use vstd::prelude::*;

verus! {

/// A length: automatic, zero, a percentage or a pixel count.
#[derive(Debug, Clone, Copy, PartialEq, Eq, Structural)]
pub enum Scalar {
    Auto,
    Zero,
    Pc(i32),
    Px(i32),
}

impl Default for Scalar {
    fn default() -> (r: Scalar)
        ensures
            r == Scalar::Auto,
    {
        Scalar::Auto
    }
}

/// A colour as red, green, blue and alpha channels.
#[derive(Debug, Clone, Copy, PartialEq, Eq, Structural)]
pub struct Color {
    pub r: u8,
    pub g: u8,
    pub b: u8,
    pub a: u8,
}

impl Color {
    pub fn new(r: u8, g: u8, b: u8, a: u8) -> (c: Color)
        ensures
            c == (Color { r, g, b, a }),
    {
        Color { r, g, b, a }
    }
}

impl Default for Color {
    /// Opaque white.
    fn default() -> (c: Color)
        ensures
            c == (Color { r: 255, g: 255, b: 255, a: 255 }),
    {
        Color { r: 255, g: 255, b: 255, a: 255 }
    }
}

/// Whether and in which order a node takes keyboard focus.
#[derive(Debug, Clone, Copy, PartialEq, Eq, Structural)]
pub enum Focus {
    Disabled,
    Enabled,
    Index(u8),
}

impl Default for Focus {
    fn default() -> (r: Focus)
        ensures
            r == Focus::Disabled,
    {
        Focus::Disabled
    }
}

/// What a selection gesture selects.
#[derive(Debug, Clone, Copy, PartialEq, Eq, Structural)]
pub enum SelectMode {
    All,
    Text,
}

impl Default for SelectMode {
    fn default() -> (r: SelectMode)
        ensures
            r == SelectMode::All,
    {
        SelectMode::All
    }
}

/// The pointer shape over a node.
#[derive(Debug, Clone, Copy, PartialEq, Eq, Structural)]
pub enum Cursor {
    Default,
    Hidden,
    Menu,
    Help,
    Pointer,
    Progress,
    Hourglass,
    Text,
    Copy,
    Move,
    Grab,
    Grabbing,
    Prohibited,
    Enlarge,
    ResizeHorizontal,
    ResizeVertical,
    ZoomIn,
    ZoomOut,
}

impl Default for Cursor {
    fn default() -> (r: Cursor)
        ensures
            r == Cursor::Default,
    {
        Cursor::Default
    }
}

/// Whether a node flows with its siblings or is placed by its four offsets.
#[derive(Debug, Clone, Copy, PartialEq, Eq, Structural)]
pub enum Position {
    Flow,
    Absolute(Scalar, Scalar, Scalar, Scalar),
}

impl Default for Position {
    fn default() -> (r: Position)
        ensures
            r == Position::Flow,
    {
        Position::Flow
    }
}

/// How many grid tracks a node spans.
#[derive(Debug, Clone, Copy, PartialEq, Eq, Structural)]
pub enum Span {
    Amount(u32),
    End,
}

impl Default for Span {
    fn default() -> (r: Span)
        ensures
            r == Span::Amount(1),
    {
        Span::Amount(1)
    }
}

/// The stroke of a border side.
#[derive(Debug, Clone, Copy, PartialEq, Eq, Structural)]
pub enum BorderKind {
    Solid,
    Dotted { size: u32, spacing: u32 },
    Dashed { size: u32, spacing: u32 },
}

impl Default for BorderKind {
    fn default() -> (r: BorderKind)
        ensures
            r == BorderKind::Solid,
    {
        BorderKind::Solid
    }
}

/// Alignment along one axis.
#[derive(Debug, Clone, Copy, PartialEq, Eq, Structural)]
pub enum Align {
    Stretch,
    Start,
    End,
    Center,
}

impl Default for Align {
    fn default() -> (r: Align)
        ensures
            r == Align::Stretch,
    {
        Align::Stretch
    }
}

/// What happens to content past a node's box.
#[derive(Debug, Clone, Copy, PartialEq, Eq, Structural)]
pub enum LayoutOverflow {
    Visible,
    Hidden,
    Scroll,
}

impl Default for LayoutOverflow {
    fn default() -> (r: LayoutOverflow)
        ensures
            r == LayoutOverflow::Visible,
    {
        LayoutOverflow::Visible
    }
}

/// The axis along which children are laid out.
#[derive(Debug, Clone, Copy, PartialEq, Eq, Structural)]
pub enum LayoutFlow {
    Row,
    Column,
}

impl Default for LayoutFlow {
    fn default() -> (r: LayoutFlow)
        ensures
            r == LayoutFlow::Row,
    {
        LayoutFlow::Row
    }
}

/// Whether children are laid out in order or reversed.
#[derive(Debug, Clone, Copy, PartialEq, Eq, Structural)]
pub enum LayoutOrder {
    Forward,
    Reverse,
}

impl Default for LayoutOrder {
    fn default() -> (r: LayoutOrder)
        ensures
            r == LayoutOrder::Forward,
    {
        LayoutOrder::Forward
    }
}

/// How the size of a grid track is chosen.
#[derive(Debug, Clone, Copy, PartialEq, Eq, Structural)]
pub enum SizePolicy {
    Auto,
    Zero,
    MinContent,
    Fr(u32),
    Pc(u32),
    Px(u32),
    Min(Scalar),
    Max(Scalar),
    Range(Scalar, Scalar),
}

impl Default for SizePolicy {
    fn default() -> (r: SizePolicy)
        ensures
            r == SizePolicy::Auto,
    {
        SizePolicy::Auto
    }
}

impl SizePolicy {
    /// `count` copies of `policy`.
    pub fn repeat(count: usize, policy: SizePolicy) -> (r: Vec<SizePolicy>)
        ensures
            r@ == Seq::new(count as nat, |i: int| policy),
    {
        let mut r: Vec<SizePolicy> = Vec::new();
        let mut i: usize = 0;
        while i < count
            invariant
                i <= count,
                r@ == Seq::new(i as nat, |j: int| policy),
            decreases count - i,
        {
            r.push(policy);
            i += 1;
            assert(r@ =~= Seq::new(i as nat, |j: int| policy));
        }
        r
    }
}

/// The typeface: the default one or one loaded from a location.
#[derive(Debug, Clone, PartialEq, Eq)]
pub enum FontFamily {
    Default,
    Url(String),
}

impl Default for FontFamily {
    fn default() -> (r: FontFamily)
        ensures
            r == FontFamily::Default,
    {
        FontFamily::Default
    }
}

/// The width of the glyphs.
#[derive(Debug, Clone, Copy, PartialEq, Eq, Structural)]
pub enum FontStretch {
    Normal,
    Expanded,
    Condensed,
}

impl Default for FontStretch {
    fn default() -> (r: FontStretch)
        ensures
            r == FontStretch::Normal,
    {
        FontStretch::Normal
    }
}

/// The slant of the glyphs.
#[derive(Debug, Clone, Copy, PartialEq, Eq, Structural)]
pub enum FontModifier {
    Normal,
    Italic,
    Oblique,
    Both,
}

impl Default for FontModifier {
    fn default() -> (r: FontModifier)
        ensures
            r == FontModifier::Normal,
    {
        FontModifier::Normal
    }
}

/// How text past a node's box is cut.
#[derive(Debug, Clone, Copy, PartialEq, Eq, Structural)]
pub enum TextOverflow {
    Hidden,
    Ellipsis,
}

impl Default for TextOverflow {
    fn default() -> (r: TextOverflow)
        ensures
            r == TextOverflow::Ellipsis,
    {
        TextOverflow::Ellipsis
    }
}

/// Where long lines of text break.
#[derive(Debug, Clone, Copy, PartialEq, Eq, Structural)]
pub enum TextWrap {
    NoWrap,
    Word,
    Letter,
}

impl Default for TextWrap {
    fn default() -> (r: TextWrap)
        ensures
            r == TextWrap::Word,
    {
        TextWrap::Word
    }
}

/// One value for each side of a box.
#[derive(Debug, Default, Clone, Copy)]
pub struct Sides<T> {
    pub top: T,
    pub right: T,
    pub bottom: T,
    pub left: T,
}

impl<T: Default + Copy> Sides<T> {
    /// The same value on all four sides.
    pub fn new(size: T) -> (r: Sides<T>)
        ensures
            r.top == size && r.right == size && r.bottom == size && r.left == size,
    {
        Sides { top: size, right: size, bottom: size, left: size }
    }

    /// Each side given, clockwise from the top.
    pub fn make(top: T, right: T, bottom: T, left: T) -> (r: Sides<T>)
        ensures
            r.top == top && r.right == right && r.bottom == bottom && r.left == left,
    {
        Sides { top, right, bottom, left }
    }

    /// `x` on top and left, `y` on right and bottom.
    pub fn make_xy(x: T, y: T) -> (r: Sides<T>)
        ensures
            r.top == x && r.left == x,
            r.right == y && r.bottom == y,
    {
        Sides { top: x, right: y, bottom: y, left: x }
    }

    /// `size` on top, the default on the other sides.
    pub fn top(size: T) -> (r: Sides<T>)
        ensures
            r.top == size,
            r.right == r.bottom && r.bottom == r.left,
    {
        let rest = T::default();
        Sides { top: size, right: rest, bottom: rest, left: rest }
    }

    /// `size` on the right, the default on the other sides.
    pub fn right(size: T) -> (r: Sides<T>)
        ensures
            r.right == size,
            r.top == r.bottom && r.bottom == r.left,
    {
        let rest = T::default();
        Sides { top: rest, right: size, bottom: rest, left: rest }
    }

    /// `size` at the bottom, the default on the other sides.
    pub fn bottom(size: T) -> (r: Sides<T>)
        ensures
            r.bottom == size,
            r.top == r.right && r.right == r.left,
    {
        let rest = T::default();
        Sides { top: rest, right: rest, bottom: size, left: rest }
    }

    /// `size` on the left, the default on the other sides.
    pub fn left(size: T) -> (r: Sides<T>)
        ensures
            r.left == size,
            r.top == r.right && r.right == r.bottom,
    {
        let rest = T::default();
        Sides { top: rest, right: rest, bottom: rest, left: size }
    }
}

} // verus!

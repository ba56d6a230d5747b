use zensen::style::{
    Align, BorderKind, Color, Cursor, Focus, FontFamily, FontModifier, FontStretch, LayoutFlow,
    LayoutOrder, LayoutOverflow, Position, Scalar, SelectMode, Sides, SizePolicy, Span,
    TextOverflow, TextWrap,
};
use zensen::styling::border::{CornerMeasures, Kind};
use zensen::styling::common::Scalar as S;
use zensen::styling::common::SideMeasures;
use zensen::styling::font::{Family, Font, Modifier, Modifiers, Stretch};
use zensen::styling::frame;
use zensen::styling::layout::{Flow, Gap, Layout, Order, Template};
use zensen::styling::text;
use zensen::styling;

#[test]
fn style_defaults() {
    assert_eq!(Scalar::default(), Scalar::Auto);
    assert_eq!(Focus::default(), Focus::Disabled);
    assert_eq!(SelectMode::default(), SelectMode::All);
    assert_eq!(Cursor::default(), Cursor::Default);
    assert_eq!(Position::default(), Position::Flow);
    assert_eq!(Span::default(), Span::Amount(1));
    assert_eq!(BorderKind::default(), BorderKind::Solid);
    assert_eq!(Align::default(), Align::Stretch);
    assert_eq!(LayoutOverflow::default(), LayoutOverflow::Visible);
    assert_eq!(LayoutFlow::default(), LayoutFlow::Row);
    assert_eq!(LayoutOrder::default(), LayoutOrder::Forward);
    assert_eq!(SizePolicy::default(), SizePolicy::Auto);
    assert_eq!(FontFamily::default(), FontFamily::Default);
    assert_eq!(FontStretch::default(), FontStretch::Normal);
    assert_eq!(FontModifier::default(), FontModifier::Normal);
    assert_eq!(TextOverflow::default(), TextOverflow::Ellipsis);
    assert_eq!(TextWrap::default(), TextWrap::Word);
    assert_eq!(Color::default(), Color::new(255, 255, 255, 255));
}

#[test]
fn size_policy_repeat() {
    assert_eq!(SizePolicy::repeat(3, SizePolicy::Fr(1)), vec![SizePolicy::Fr(1); 3]);
    assert!(SizePolicy::repeat(0, SizePolicy::Px(4)).is_empty());
    assert_eq!(
        styling::layout::SizePolicy::repeat(2, styling::layout::SizePolicy::Pc(50)),
        vec![styling::layout::SizePolicy::Pc(50), styling::layout::SizePolicy::Pc(50)]
    );
}

#[test]
fn side_measures() {
    let all = SideMeasures::new(S::Px(2));
    assert_eq!((all.top, all.right, all.bottom, all.left), (S::Px(2), S::Px(2), S::Px(2), S::Px(2)));
    let each = SideMeasures::make(S::Px(1), S::Px(2), S::Px(3), S::Px(4));
    assert_eq!((each.top, each.right, each.bottom, each.left), (S::Px(1), S::Px(2), S::Px(3), S::Px(4)));
    let hv = SideMeasures::make_hor_vert(S::Zero, S::Pc(10));
    assert_eq!((hv.top, hv.right, hv.bottom, hv.left), (S::Zero, S::Pc(10), S::Zero, S::Pc(10)));
    let t = SideMeasures::top(S::Px(5));
    assert_eq!((t.top, t.right, t.bottom, t.left), (S::Px(5), S::Auto, S::Auto, S::Auto));
    let r = SideMeasures::right(S::Px(5));
    assert_eq!((r.top, r.right, r.bottom, r.left), (S::Auto, S::Px(5), S::Auto, S::Auto));
    let b = SideMeasures::bottom(S::Px(5));
    assert_eq!((b.top, b.right, b.bottom, b.left), (S::Auto, S::Auto, S::Px(5), S::Auto));
    let l = SideMeasures::left(Kind::Dotted { size: 1, spacing: 2 });
    assert_eq!((l.top, l.right, l.bottom, l.left), (Kind::Solid, Kind::Solid, Kind::Solid, Kind::Dotted { size: 1, spacing: 2 }));
}

#[test]
fn corner_measures_and_gaps() {
    let c = CornerMeasures::new(S::Px(3));
    assert_eq!(c, CornerMeasures { upper_left: S::Px(3), upper_right: S::Px(3), lower_right: S::Px(3), lower_left: S::Px(3) });
    let m = CornerMeasures::make(S::Px(1), S::Px(2), S::Px(3), S::Px(4));
    assert_eq!((m.upper_left, m.upper_right, m.lower_right, m.lower_left), (S::Px(1), S::Px(2), S::Px(3), S::Px(4)));
    assert_eq!(Gap::uniform(S::Px(8)), Gap { horizontal: S::Px(8), vertical: S::Px(8) });
    assert_eq!(Gap::horizontal(S::Px(8)), Gap { horizontal: S::Px(8), vertical: S::Auto });
    assert_eq!(Gap::vertical(S::Px(8)), Gap { horizontal: S::Auto, vertical: S::Px(8) });
    assert_eq!(Gap::both(S::Zero, S::Pc(5)), Gap { horizontal: S::Zero, vertical: S::Pc(5) });
}

#[test]
fn styling_defaults() {
    assert_eq!(styling::SelectMode::default(), styling::SelectMode::All);
    assert_eq!(styling::Cursor::default(), styling::Cursor::Default);
    assert_eq!(Kind::default(), Kind::Solid);
    assert_eq!(Family::default(), Family::Default);
    assert_eq!(Stretch::default(), Stretch::Normal);
    assert_eq!(Modifier::default(), Modifier::Normal);
    assert_eq!(frame::Overflow::default(), frame::Overflow::Visible);
    assert_eq!(frame::Span::default(), frame::Span::Amount(1));
    assert!(matches!(frame::Position::default(), frame::Position::Flow));
    assert_eq!(text::Overflow::default(), text::Overflow::Ellipsis);
    assert_eq!(text::Wrap::default(), text::Wrap::Word);
    assert_eq!(Flow::default(), Flow::Row);
    assert_eq!(Order::default(), Order::Forward);
    assert_eq!(Template::default(), Template::Columns(vec![styling::layout::SizePolicy::Fr(1)]));
    let layout = Layout::default();
    assert_eq!(layout.template, Template::default());
    assert_eq!(layout.gap, Gap { horizontal: styling::common::Scalar::Auto, vertical: styling::common::Scalar::Auto });
    let font = Font::default();
    assert_eq!(font.weight, 0);
    assert_eq!(font.family, Family::Default);
}

#[test]
fn sides() {
    let all = Sides::new(Scalar::Px(1));
    assert_eq!((all.top, all.right, all.bottom, all.left), (Scalar::Px(1), Scalar::Px(1), Scalar::Px(1), Scalar::Px(1)));
    let each = Sides::make(Scalar::Px(1), Scalar::Px(2), Scalar::Px(3), Scalar::Px(4));
    assert_eq!((each.top, each.right, each.bottom, each.left), (Scalar::Px(1), Scalar::Px(2), Scalar::Px(3), Scalar::Px(4)));
    let xy = Sides::make_xy(Scalar::Zero, Scalar::Px(12));
    assert_eq!((xy.top, xy.right, xy.bottom, xy.left), (Scalar::Zero, Scalar::Px(12), Scalar::Px(12), Scalar::Zero));
    let t = Sides::top(Color::new(1, 2, 3, 4));
    assert_eq!((t.top, t.right, t.bottom, t.left), (Color::new(1, 2, 3, 4), Color::default(), Color::default(), Color::default()));
    let r = Sides::right(BorderKind::Dashed { size: 2, spacing: 1 });
    assert_eq!((r.top, r.right, r.bottom, r.left), (BorderKind::Solid, BorderKind::Dashed { size: 2, spacing: 1 }, BorderKind::Solid, BorderKind::Solid));
    let b = Sides::bottom(Scalar::Pc(3));
    assert_eq!((b.top, b.right, b.bottom, b.left), (Scalar::Auto, Scalar::Auto, Scalar::Pc(3), Scalar::Auto));
    let l = Sides::left(Scalar::Pc(3));
    assert_eq!((l.top, l.right, l.bottom, l.left), (Scalar::Auto, Scalar::Auto, Scalar::Auto, Scalar::Pc(3)));
}

#[test]
fn font_modifiers_default_to_unset() {
    let m = Modifiers::default();
    assert_eq!(m, Modifiers { family: None, stretch: None, style: None, weight: None });
}

//! The engine without the layout algorithms: layouts are set by hand.

use gpui_taffy::engine::TaffyLayoutEngine;
use gpui_taffy::geometry::{Bounds, Edges, Point, Size};
use gpui_taffy::inspection::DepthNote;
use gpui_taffy::layout_style::{
    Dimension, GridLine, LayoutStyle, LengthPercentage, LengthPercentageAuto, MaxTrackSizing,
    MinTrackSizing, TemplateComponent, TrackSizing,
};
use gpui_taffy::number::{default_rem_size, Arithmetic, CalcLength, Pixels, Scalar};
use gpui_taffy::run::{
    first_baseline, first_step, leaf_metrics, measure_input, Algorithm, FirstStep, LeafMetrics,
    Measure, MeasuredLayout,
};
use gpui_taffy::snapping::{point_sum, snap_measured_size_to_device_pixels, snapped_bounds};
use gpui_taffy::space::AvailableSpace;
use gpui_taffy::style::{
    calc_lengths, AbsoluteLength, AlignContent, AlignItems, DefiniteLength, Display,
    FlexDirection, FlexWrap, GridLocation, GridPlacement, GridTemplate, GridTemplateComponent,
    GridTrack, GridTrackMax, GridTrackMin, Length, Overflow, Position, Rems, Style,
};
use gpui_taffy::to_taffy::{border_widths_to_taffy, to_grid_template, ToTaffy};
use gpui_taffy::tree::{Layout, LayoutId};

struct Floats;

fn s(value: f32) -> Scalar {
    Scalar { bits: value.to_bits() }
}

fn f(value: Scalar) -> f32 {
    f32::from_bits(value.bits)
}

fn px(value: f32) -> Pixels {
    Pixels(s(value))
}

fn round_half_toward_zero(value: f32) -> f32 {
    if value.fract().abs() == 0.5 {
        value.trunc()
    } else {
        value.round()
    }
}

impl Arithmetic for Floats {
    fn sum(&self, a: Scalar, b: Scalar) -> Scalar {
        s(f(a) + f(b))
    }

    fn difference(&self, a: Scalar, b: Scalar) -> Scalar {
        s(f(a) - f(b))
    }

    fn product(&self, a: Scalar, b: Scalar) -> Scalar {
        s(f(a) * f(b))
    }

    fn quotient(&self, a: Scalar, b: Scalar) -> Scalar {
        s(f(a) / f(b))
    }

    fn non_negative(&self, a: Scalar) -> Scalar {
        s(f(a).max(0.0))
    }

    fn round_half_toward_zero(&self, a: Scalar) -> Scalar {
        s(round_half_toward_zero(f(a)))
    }

    fn round_to_device_pixel(&self, a: Scalar, scale_factor: Scalar) -> Scalar {
        s(round_half_toward_zero(f(a) * f(scale_factor)))
    }

    fn round_stroke_to_device_pixel(&self, a: Scalar, scale_factor: Scalar) -> Scalar {
        if f(a) == 0.0 {
            s(0.0)
        } else {
            s(round_half_toward_zero(f(a) * f(scale_factor)).max(1.0))
        }
    }

    fn ceil_to_device_pixel(&self, a: Scalar, scale_factor: Scalar) -> Scalar {
        s((f(a) * f(scale_factor)).ceil())
    }

    // The expression with handle `8 * n` is `n` percent plus `n` rems.
    fn resolve_calc(
        &self,
        length: CalcLength,
        basis: Scalar,
        rem_size: Pixels,
        scale_factor: Scalar,
    ) -> Scalar {
        let n = (length.handle / 8) as f32;
        s(n / 100.0 * f(basis) + n * f(rem_size.0) * f(scale_factor))
    }
}

type Engine = TaffyLayoutEngine<u8>;

fn all_edges<T: Copy>(value: T) -> Edges<T> {
    Edges { top: value, right: value, bottom: value, left: value }
}

fn absolute(value: f32) -> DefiniteLength {
    DefiniteLength::Absolute(AbsoluteLength::Pixels(px(value)))
}

fn pixels(value: f32) -> Length {
    Length::Definite(absolute(value))
}

fn style() -> Style {
    let auto = Size { width: Length::Auto, height: Length::Auto };
    Style {
        display: Display::Block,
        overflow: Point { x: Overflow::Visible, y: Overflow::Visible },
        scrollbar_width: AbsoluteLength::Pixels(px(0.0)),
        position: Position::Relative,
        inset: all_edges(Length::Auto),
        size: auto,
        min_size: auto,
        max_size: auto,
        aspect_ratio: None,
        margin: all_edges(pixels(0.0)),
        padding: all_edges(absolute(0.0)),
        border_widths: all_edges(AbsoluteLength::Pixels(px(0.0))),
        align_items: None,
        align_self: None,
        align_content: None,
        justify_content: None,
        gap: Size { width: absolute(0.0), height: absolute(0.0) },
        flex_direction: FlexDirection::Row,
        flex_wrap: FlexWrap::NoWrap,
        flex_basis: Length::Auto,
        flex_grow: s(0.0),
        flex_shrink: s(1.0),
        grid_rows: None,
        grid_cols: None,
        grid_location: None,
    }
}

fn node(engine: &mut Engine, children: &[LayoutId]) -> LayoutId {
    engine.request_layout(&Floats, style(), px(16.0), s(1.0), children)
}

fn place(engine: &mut Engine, id: LayoutId, left: f32, top: f32, width: f32, height: f32) {
    engine.taffy.set_unrounded_layout(
        id,
        &Layout {
            location: Point { x: s(left), y: s(top) },
            size: Size { width: s(width), height: s(height) },
        },
    );
}

fn rectangle(left: f32, top: f32, width: f32, height: f32) -> Bounds<Pixels> {
    Bounds {
        origin: Point { x: px(left), y: px(top) },
        size: Size { width: px(width), height: px(height) },
    }
}

fn bounds(engine: &mut Engine, id: LayoutId) -> Bounds<Pixels> {
    engine.layout_bounds(&Floats, id, s(1.0))
}

fn lay_out(engine: &mut Engine, id: LayoutId) -> Size<AvailableSpace> {
    engine.compute_layout(&Floats, id, AvailableSpace::min_size(), s(1.0))
}

#[test]
fn min_size_is_min_content_on_both_axes() {
    let min_content_size = AvailableSpace::min_size();
    assert_eq!(min_content_size.width, AvailableSpace::MinContent);
    assert_eq!(min_content_size.height, AvailableSpace::MinContent);
    assert_eq!(AvailableSpace::default(), AvailableSpace::MinContent);
}

#[test]
fn numbers_are_compared_by_value() {
    let numbers = [
        0.0,
        -0.0,
        1.0,
        -1.0,
        f32::MIN_POSITIVE,
        f32::INFINITY,
        f32::NEG_INFINITY,
        f32::NAN,
        -f32::NAN,
    ];
    for a in numbers {
        for b in numbers {
            assert_eq!(s(a) == s(b), a == b, "{a} and {b}");
            assert_eq!(px(a) == px(b), a == b);
            assert_eq!(
                AvailableSpace::Definite(px(a)) == AvailableSpace::Definite(px(b)),
                a == b
            );
        }
    }
    let zero = AvailableSpace::Definite(px(0.0));
    assert_ne!(zero, AvailableSpace::MinContent);
    assert_ne!(AvailableSpace::MinContent, AvailableSpace::MaxContent);
    assert_eq!(AvailableSpace::MaxContent, AvailableSpace::MaxContent);
}

#[test]
fn styles_are_whole_and_borders_show_at_fractional_scales() {
    for scale_factor in [1.0, 1.1, 1.25, 1.5, 1.75, 2.0, 3.3] {
        let mut authored = style();
        authored.scrollbar_width = AbsoluteLength::Rems(Rems(s(0.7)));
        authored.size = Size { width: pixels(10.3), height: pixels(7.7) };
        authored.padding.left = absolute(3.3);
        authored.border_widths = all_edges(AbsoluteLength::Pixels(px(0.1)));
        let mapped: LayoutStyle = authored.to_taffy(&Floats, px(15.0), s(scale_factor));
        let mut lengths = vec![f(mapped.scrollbar_width)];
        for dimension in [mapped.size.width, mapped.size.height] {
            match dimension {
                Dimension::Length(length) => lengths.push(f(length)),
                _ => panic!("not a length"),
            }
        }
        for side in [mapped.padding.left, mapped.border.top, mapped.border.left] {
            match side {
                LengthPercentage::Length(length) => lengths.push(f(length)),
                _ => panic!("not a length"),
            }
        }
        assert!(lengths.iter().all(|length| length.fract() == 0.0));
        assert_eq!(mapped.border, all_edges(LengthPercentage::Length(s(1.0))));
    }
}

#[test]
fn stretched_sizes_and_leaf_metrics_are_whole() {
    for scale_factor in [1.1, 1.25, 1.5, 1.75] {
        let mut engine = Engine::new();
        let root = node(&mut engine, &[]);
        let size = Size { width: px(100.3), height: px(33.7) };
        engine.stretch_auto_size_to_fill(&Floats, root, size, s(scale_factor));
        let stretched = engine.taffy.style(root).size;
        for dimension in [stretched.width, stretched.height] {
            assert!(matches!(dimension, Dimension::Length(length) if f(length).fract() == 0.0));
        }
        let metrics = leaf_metrics(
            &Floats,
            MeasuredLayout { size, first_baseline: Some(px(9.7)) },
            s(scale_factor),
        );
        assert_eq!(f(metrics.size.width).fract(), 0.0);
        assert_eq!(f(metrics.size.height).fract(), 0.0);
        assert!(f(metrics.size.width) >= 100.3 * scale_factor);
        assert!(matches!(metrics.first_baseline, Some(baseline) if f(baseline).fract() == 0.0));
    }
}

#[test]
fn pixels_are_definite_space() {
    assert_eq!(AvailableSpace::from(px(3.0)), AvailableSpace::Definite(px(3.0)));
    assert_eq!(
        Size::<AvailableSpace>::from(Size { width: px(3.0), height: px(4.0) }),
        Size {
            width: AvailableSpace::Definite(px(3.0)),
            height: AvailableSpace::Definite(px(4.0)),
        }
    );
}

#[test]
fn space_is_scaled_where_it_is_definite() {
    let definite = AvailableSpace::Definite(px(10.0));
    assert_eq!(definite.to_device_pixels(&Floats, s(1.5)), AvailableSpace::Definite(px(15.0)));
    assert_eq!(definite.to_logical_pixels(&Floats, s(2.5)), AvailableSpace::Definite(px(4.0)));
    for space in [AvailableSpace::MinContent, AvailableSpace::MaxContent] {
        assert_eq!(space.to_device_pixels(&Floats, s(1.5)), space);
        assert_eq!(space.to_logical_pixels(&Floats, s(1.5)), space);
    }
}

#[test]
fn identifiers_stand_for_indices() {
    assert_eq!(LayoutId::from(7), LayoutId(7));
    assert_eq!(u64::from(LayoutId(7)), 7);
}

#[test]
fn absolute_lengths_become_whole_device_pixels() {
    let snap = |length: AbsoluteLength, scale_factor: f32| -> f32 {
        let r: Scalar = length.to_taffy(&Floats, px(10.0), s(scale_factor));
        f(r)
    };
    let length = |value: f32| AbsoluteLength::Pixels(px(value));
    assert_eq!(snap(length(1.0), 1.5), 1.0);
    assert_eq!(snap(length(-1.0), 1.5), -1.0);
    assert_eq!(snap(length(1.1), 1.5), 2.0);
    assert_eq!(snap(length(3.0), 1.25), 4.0);
    assert_eq!(snap(AbsoluteLength::Rems(Rems(s(1.5))), 2.0), 30.0);
    assert_eq!(AbsoluteLength::Rems(Rems(s(1.5))).to_pixels(&Floats, px(10.0)), px(15.0));
    assert_eq!(length(4.0).to_pixels(&Floats, px(10.0)), px(4.0));
}

#[test]
fn lengths_keep_their_kind() {
    let dimension = |length: Length| -> Dimension {
        length.to_taffy(&Floats, px(16.0), s(2.0))
    };
    let offset = |length: Length| -> LengthPercentageAuto {
        length.to_taffy(&Floats, px(16.0), s(2.0))
    };
    let share = Length::Definite(DefiniteLength::Fraction(s(0.25)));
    let calc = Length::Calc(CalcLength { handle: 8 });
    assert_eq!(dimension(pixels(3.0)), Dimension::Length(s(6.0)));
    assert_eq!(dimension(share), Dimension::Percent(s(0.25)));
    assert_eq!(dimension(calc), Dimension::Calc(8));
    assert_eq!(dimension(Length::Auto), Dimension::Auto);
    assert_eq!(offset(pixels(3.0)), LengthPercentageAuto::Length(s(6.0)));
    assert_eq!(offset(share), LengthPercentageAuto::Percent(s(0.25)));
    assert_eq!(offset(calc), LengthPercentageAuto::Calc(8));
    assert_eq!(offset(Length::Auto), LengthPercentageAuto::Auto);

    let gap: LengthPercentage =
        DefiniteLength::Fraction(s(0.5)).to_taffy(&Floats, px(16.0), s(2.0));
    assert_eq!(gap, LengthPercentage::Percent(s(0.5)));
    assert!(Dimension::Auto.is_auto());
    assert!(!Dimension::Percent(s(1.0)).is_auto());
}

#[test]
fn strokes_never_vanish() {
    let widths = Edges {
        top: AbsoluteLength::Pixels(px(0.0)),
        right: AbsoluteLength::Rems(Rems(s(0.01))),
        bottom: AbsoluteLength::Pixels(px(1.0)),
        left: AbsoluteLength::Rems(Rems(s(0.5))),
    };
    assert_eq!(
        border_widths_to_taffy(&Floats, &widths, px(10.0), s(1.5)),
        Edges {
            top: LengthPercentage::Length(s(0.0)),
            right: LengthPercentage::Length(s(1.0)),
            bottom: LengthPercentage::Length(s(1.0)),
            left: LengthPercentage::Length(s(7.0)),
        }
    );
}

#[test]
fn styles_map_field_by_field() {
    let authored = Style {
        display: Display::Grid,
        overflow: Point { x: Overflow::Clip, y: Overflow::Scroll },
        scrollbar_width: AbsoluteLength::Pixels(px(5.0)),
        position: Position::Absolute,
        inset: Edges {
            top: pixels(1.0),
            right: pixels(2.0),
            bottom: pixels(3.0),
            left: Length::Calc(CalcLength { handle: 8 }),
        },
        size: Size { width: pixels(10.0), height: pixels(11.0) },
        min_size: Size { width: pixels(12.0), height: pixels(13.0) },
        max_size: Size { width: pixels(14.0), height: pixels(15.0) },
        aspect_ratio: Some(s(1.75)),
        margin: Edges {
            top: pixels(4.0),
            right: Length::Auto,
            bottom: pixels(6.0),
            left: pixels(7.0),
        },
        padding: Edges {
            top: absolute(8.0),
            right: absolute(9.0),
            bottom: DefiniteLength::Fraction(s(0.5)),
            left: absolute(16.0),
        },
        border_widths: Edges {
            top: AbsoluteLength::Pixels(px(0.2)),
            right: AbsoluteLength::Pixels(px(1.0)),
            bottom: AbsoluteLength::Pixels(px(2.0)),
            left: AbsoluteLength::Pixels(px(3.0)),
        },
        align_items: Some(AlignItems::Center),
        align_self: Some(AlignItems::FlexEnd),
        align_content: Some(AlignContent::SpaceBetween),
        justify_content: Some(AlignContent::SpaceAround),
        gap: Size { width: absolute(17.0), height: absolute(18.0) },
        flex_direction: FlexDirection::ColumnReverse,
        flex_wrap: FlexWrap::WrapReverse,
        flex_basis: pixels(19.0),
        flex_grow: s(2.5),
        flex_shrink: s(3.5),
        grid_rows: Some(GridTemplate {
            tracks: vec![GridTemplateComponent::Track(GridTrack::Auto)],
        }),
        grid_cols: Some(GridTemplate {
            tracks: vec![
                GridTemplateComponent::Track(GridTrack::MinContent),
                GridTemplateComponent::Track(GridTrack::MaxContent),
            ],
        }),
        grid_location: Some(GridLocation {
            row: GridPlacement::Line(2)..GridPlacement::Span(3),
            column: GridPlacement::Auto..GridPlacement::Line(-1),
        }),
    };
    let auto = LengthPercentageAuto::Auto;
    let offset = |value: f32| LengthPercentageAuto::Length(s(value));
    let length = |value: f32| LengthPercentage::Length(s(value));
    let dimension = |value: f32| Dimension::Length(s(value));
    let expected = LayoutStyle {
        display: Display::Grid,
        overflow: Point { x: Overflow::Clip, y: Overflow::Scroll },
        scrollbar_width: s(10.0),
        position: Position::Absolute,
        inset: Edges {
            top: offset(2.0),
            right: offset(4.0),
            bottom: offset(6.0),
            left: LengthPercentageAuto::Calc(8),
        },
        size: Size { width: dimension(20.0), height: dimension(22.0) },
        min_size: Size { width: dimension(24.0), height: dimension(26.0) },
        max_size: Size { width: dimension(28.0), height: dimension(30.0) },
        aspect_ratio: Some(s(1.75)),
        margin: Edges { top: offset(8.0), right: auto, bottom: offset(12.0), left: offset(14.0) },
        padding: Edges {
            top: length(16.0),
            right: length(18.0),
            bottom: LengthPercentage::Percent(s(0.5)),
            left: length(32.0),
        },
        border: Edges {
            top: length(1.0),
            right: length(2.0),
            bottom: length(4.0),
            left: length(6.0),
        },
        align_items: Some(AlignItems::Center),
        align_self: Some(AlignItems::FlexEnd),
        align_content: Some(AlignContent::SpaceBetween),
        justify_content: Some(AlignContent::SpaceAround),
        gap: Size { width: length(34.0), height: length(36.0) },
        flex_direction: FlexDirection::ColumnReverse,
        flex_wrap: FlexWrap::WrapReverse,
        flex_basis: dimension(38.0),
        flex_grow: s(2.5),
        flex_shrink: s(3.5),
        grid_template_rows: vec![TemplateComponent::Single(TrackSizing {
            min: MinTrackSizing::Auto,
            max: MaxTrackSizing::Auto,
        })],
        grid_template_columns: vec![
            TemplateComponent::Single(TrackSizing {
                min: MinTrackSizing::MinContent,
                max: MaxTrackSizing::MinContent,
            }),
            TemplateComponent::Single(TrackSizing {
                min: MinTrackSizing::MaxContent,
                max: MaxTrackSizing::MaxContent,
            }),
        ],
        grid_row: GridLine { start: GridPlacement::Line(2), end: GridPlacement::Span(3) },
        grid_column: GridLine { start: GridPlacement::Auto, end: GridPlacement::Line(-1) },
    };
    let mapped: LayoutStyle = authored.to_taffy(&Floats, px(16.0), s(2.0));
    assert_eq!(mapped, expected);
}

#[test]
fn styles_without_a_grid_have_no_tracks_and_automatic_placement() {
    let mapped: LayoutStyle = style().to_taffy(&Floats, px(16.0), s(2.0));
    let automatic = GridLine { start: GridPlacement::Auto, end: GridPlacement::Auto };
    assert_eq!(mapped.grid_template_rows, vec![]);
    assert_eq!(mapped.grid_template_columns, vec![]);
    assert_eq!(mapped.grid_row, automatic);
    assert_eq!(mapped.grid_column, automatic);
}

#[test]
fn fixed_tracks_become_whole_device_pixels() {
    let template = Some(GridTemplate {
        tracks: vec![
            GridTemplateComponent::Track(GridTrack::Px(px(10.0))),
            GridTemplateComponent::Track(GridTrack::Fr(s(2.0))),
            GridTemplateComponent::Repeat {
                count: 0,
                tracks: vec![
                    GridTrack::MinMax { min: GridTrackMin::Auto, max: GridTrackMax::Px(px(3.5)) },
                    GridTrack::MinMax {
                        min: GridTrackMin::MinContent,
                        max: GridTrackMax::MaxContent,
                    },
                    GridTrack::MinMax {
                        min: GridTrackMin::MaxContent,
                        max: GridTrackMax::MinContent,
                    },
                    GridTrack::MinMax { min: GridTrackMin::Px(px(0.3)), max: GridTrackMax::Auto },
                ],
            },
        ],
    });
    let sizing = |min: MinTrackSizing, max: MaxTrackSizing| TrackSizing { min, max };
    assert_eq!(
        to_grid_template(&Floats, &template, s(2.0)),
        vec![
            TemplateComponent::Single(sizing(
                MinTrackSizing::Length(s(20.0)),
                MaxTrackSizing::Length(s(20.0))
            )),
            TemplateComponent::Single(sizing(MinTrackSizing::Auto, MaxTrackSizing::Fr(s(2.0)))),
            TemplateComponent::Repeat {
                count: 0,
                tracks: vec![
                    sizing(MinTrackSizing::Auto, MaxTrackSizing::Length(s(7.0))),
                    sizing(MinTrackSizing::MinContent, MaxTrackSizing::MaxContent),
                    sizing(MinTrackSizing::MaxContent, MaxTrackSizing::MinContent),
                    sizing(MinTrackSizing::Length(s(1.0)), MaxTrackSizing::Auto),
                ],
            },
        ]
    );
}

#[test]
fn fractional_tracks_are_rounded_at_any_scale() {
    let fixed = |value: f32, scale_factor: f32| {
        let template = Some(GridTemplate {
            tracks: vec![GridTemplateComponent::Track(GridTrack::Px(px(value)))],
        });
        to_grid_template(&Floats, &template, s(scale_factor))
    };
    let track = |value: f32| {
        vec![TemplateComponent::Single(TrackSizing {
            min: MinTrackSizing::Length(s(value)),
            max: MaxTrackSizing::Length(s(value)),
        })]
    };
    assert_eq!(fixed(10.5, 1.0), track(10.0));
    assert_eq!(fixed(10.6, 1.0), track(11.0));
    assert_eq!(fixed(1.0, 1.5), track(1.0));
}

#[test]
fn styles_without_lengths_do_not_scale() {
    let build = || {
        let share = DefiniteLength::Fraction(s(0.3));
        let mut authored = style();
        authored.size.width = Length::Definite(share);
        authored.size.height = Length::Calc(CalcLength { handle: 8 });
        authored.padding.top = share;
        authored.gap.width = DefiniteLength::Absolute(AbsoluteLength::Rems(Rems(s(0.0))));
        authored.flex_grow = s(1.5);
        authored.aspect_ratio = Some(s(1.25));
        authored.grid_rows = Some(GridTemplate {
            tracks: vec![
                GridTemplateComponent::Track(GridTrack::Fr(s(2.0))),
                GridTemplateComponent::Track(GridTrack::Px(px(0.0))),
            ],
        });
        authored
    };
    let one: LayoutStyle = build().to_taffy(&Floats, px(16.0), s(1.0));
    let other: LayoutStyle = build().to_taffy(&Floats, px(20.0), s(2.5));
    assert_eq!(one, other);
    assert_eq!(one.flex_grow, s(1.5));
    assert_eq!(one.padding.top, LengthPercentage::Percent(s(0.3)));
}

#[test]
fn calc_expressions_are_collected_in_order_and_as_often_as_they_occur() {
    let calc = |handle: u64| Length::Calc(CalcLength { handle });
    let mut authored = style();
    authored.flex_basis = calc(8);
    authored.margin.left = calc(16);
    authored.max_size.height = calc(24);
    authored.size.width = calc(8);
    authored.inset.top = calc(32);
    let handles: Vec<u64> = calc_lengths(&authored).iter().map(|value| value.handle).collect();
    assert_eq!(handles, vec![32, 8, 24, 16, 8]);
    assert_eq!(calc_lengths(&style()), vec![]);
}

#[test]
fn the_rem_size_of_calc_expressions_is_sixteen_pixels() {
    assert_eq!(f(default_rem_size().0), 16.0);
}

#[test]
fn corners_are_rounded_with_midpoints_toward_zero() {
    let snap = |left: f32, top: f32, width: f32, height: f32, scale_factor: f32| {
        snapped_bounds(
            &Floats,
            Point { x: s(left), y: s(top) },
            Size { width: s(width), height: s(height) },
            s(scale_factor),
        )
    };
    assert_eq!(snap(0.5, 1.5, 2.0, 2.0, 1.0), rectangle(0.0, 1.0, 2.0, 2.0));
    assert_eq!(snap(0.6, -1.6, 1.0, 1.0, 1.0), rectangle(1.0, -2.0, 1.0, 1.0));
    assert_eq!(snap(10.4, 10.4, 10.4, 10.0, 2.0), rectangle(5.0, 5.0, 5.5, 5.0));
    assert_eq!(
        point_sum(&Floats, Point { x: s(1.0), y: s(2.0) }, Point { x: s(3.0), y: s(5.0) }),
        Point { x: s(4.0), y: s(7.0) }
    );
}

#[test]
fn whole_boxes_keep_their_size_wherever_they_are() {
    for left in [0.0, 3.0, -7.0, 1000.0] {
        let painted = snapped_bounds(
            &Floats,
            Point { x: s(left), y: s(left) },
            Size { width: s(12.0), height: s(5.0) },
            s(1.0),
        );
        assert_eq!(painted, rectangle(left, left, 12.0, 5.0));
    }
}

#[test]
fn measured_sizes_are_rounded_up_and_not_negative() {
    let snap = |width: f32, height: f32, scale_factor: f32| {
        let size = snap_measured_size_to_device_pixels(
            &Floats,
            Size { width: px(width), height: px(height) },
            s(scale_factor),
        );
        (f(size.width), f(size.height))
    };
    assert_eq!(snap(10.2, 3.0, 1.0), (11.0, 3.0));
    assert_eq!(snap(1.0, -4.0, 1.5), (2.0, 0.0));
    assert_eq!(snap(f32::NAN, 0.0, 1.0), (0.0, 0.0));
}

#[test]
fn bounds_accumulate_unrounded_origins() {
    let mut engine = Engine::new();
    let leaf = node(&mut engine, &[]);
    let inner = node(&mut engine, &[leaf]);
    let root = node(&mut engine, &[inner]);
    place(&mut engine, root, 0.25, 0.0, 100.0, 50.0);
    place(&mut engine, inner, 10.25, 5.5, 20.0, 20.0);
    place(&mut engine, leaf, 0.25, 0.25, 4.5, 4.5);
    assert_eq!(bounds(&mut engine, leaf), rectangle(11.0, 6.0, 4.0, 4.0));
    assert_eq!(bounds(&mut engine, inner), rectangle(10.0, 5.0, 20.0, 20.0));
    assert_eq!(bounds(&mut engine, root), rectangle(0.0, 0.0, 100.0, 50.0));
}

#[test]
fn bounds_do_not_depend_on_the_order_of_questions() {
    let build = || {
        let mut engine = Engine::new();
        let first = node(&mut engine, &[]);
        let second = node(&mut engine, &[]);
        let root = node(&mut engine, &[first, second]);
        place(&mut engine, first, 0.0, 0.0, 33.4, 10.0);
        place(&mut engine, second, 33.4, 0.0, 33.4, 10.0);
        place(&mut engine, root, 0.3, 0.0, 66.8, 10.0);
        (engine, [first, second, root])
    };
    let (mut forwards, ids) = build();
    let (mut backwards, _) = build();
    let one: Vec<Bounds<Pixels>> = ids.iter().map(|id| bounds(&mut forwards, *id)).collect();
    let mut other: Vec<Bounds<Pixels>> =
        ids.iter().rev().map(|id| bounds(&mut backwards, *id)).collect();
    other.reverse();
    assert_eq!(one, other);
    assert_eq!(one[0], rectangle(0.0, 0.0, 34.0, 10.0));
    assert_eq!(one[1], rectangle(34.0, 0.0, 33.0, 10.0));
}

#[test]
fn adjacent_cousins_meet_and_aligned_ones_stay_aligned() {
    let mut engine = Engine::new();
    let left = node(&mut engine, &[]);
    let left_holder = node(&mut engine, &[left]);
    let right = node(&mut engine, &[]);
    let right_holder = node(&mut engine, &[right]);
    let below = node(&mut engine, &[]);
    let root = node(&mut engine, &[left_holder, right_holder, below]);
    place(&mut engine, root, 0.0, 0.0, 100.0, 100.0);
    place(&mut engine, left_holder, 0.25, 0.0, 40.0, 40.0);
    place(&mut engine, left, 0.25, 0.0, 10.25, 10.0);
    place(&mut engine, right_holder, 10.5, 0.0, 40.0, 40.0);
    place(&mut engine, right, 0.25, 0.0, 10.25, 10.0);
    place(&mut engine, below, 10.75, 20.0, 3.0, 3.0);
    assert_eq!(bounds(&mut engine, left), rectangle(0.0, 0.0, 11.0, 10.0));
    assert_eq!(bounds(&mut engine, right), rectangle(11.0, 0.0, 10.0, 10.0));
    assert_eq!(bounds(&mut engine, below), rectangle(11.0, 20.0, 3.0, 3.0));
}

#[test]
fn cousins_with_the_same_far_edge_end_together() {
    let mut engine = Engine::new();
    let wide = node(&mut engine, &[]);
    let narrow = node(&mut engine, &[]);
    let holder = node(&mut engine, &[narrow]);
    let root = node(&mut engine, &[wide, holder]);
    place(&mut engine, root, 0.25, 0.0, 100.0, 100.0);
    place(&mut engine, wide, 0.0, 0.0, 30.5, 10.0);
    place(&mut engine, holder, 10.25, 20.0, 40.0, 40.0);
    place(&mut engine, narrow, 10.0, 0.0, 10.25, 10.0);
    assert_eq!(bounds(&mut engine, wide), rectangle(0.0, 0.0, 31.0, 10.0));
    assert_eq!(bounds(&mut engine, narrow), rectangle(20.0, 20.0, 11.0, 10.0));
}

#[test]
fn moving_a_whole_ancestor_moves_origins_only() {
    for offset in [0.0, 1.0, -3.0, 250.0] {
        let mut engine = Engine::new();
        let leaf = node(&mut engine, &[]);
        let inner = node(&mut engine, &[leaf]);
        let root = node(&mut engine, &[inner]);
        place(&mut engine, root, offset, offset, 100.0, 100.0);
        place(&mut engine, inner, 7.0, 9.0, 50.0, 50.0);
        place(&mut engine, leaf, 3.0, 2.0, 13.0, 5.0);
        assert_eq!(
            bounds(&mut engine, leaf),
            rectangle(10.0 + offset, 11.0 + offset, 13.0, 5.0)
        );
    }
}

#[test]
fn bounds_are_remembered_until_layout_is_computed_again() {
    let mut engine = Engine::new();
    let leaf = node(&mut engine, &[]);
    let root = node(&mut engine, &[leaf]);
    let apart = node(&mut engine, &[]);
    lay_out(&mut engine, root);
    for id in [leaf, root, apart] {
        place(&mut engine, id, 1.0, 1.0, 2.0, 2.0);
    }
    for id in [leaf, root, apart] {
        bounds(&mut engine, id);
    }
    let known: Bounds<Pixels> = bounds(&mut engine, leaf);
    assert_eq!(known, rectangle(2.0, 2.0, 2.0, 2.0));
    for id in [leaf, root, apart] {
        place(&mut engine, id, 5.0, 5.0, 7.0, 7.0);
    }
    assert_eq!(bounds(&mut engine, leaf), known);

    lay_out(&mut engine, leaf);
    assert_eq!(bounds(&mut engine, leaf), known);

    lay_out(&mut engine, leaf);
    assert_eq!(bounds(&mut engine, leaf), rectangle(6.0, 6.0, 7.0, 7.0));
    assert_eq!(bounds(&mut engine, root), rectangle(1.0, 1.0, 2.0, 2.0));

    lay_out(&mut engine, root);
    assert_eq!(bounds(&mut engine, leaf), rectangle(10.0, 10.0, 7.0, 7.0));
    assert_eq!(bounds(&mut engine, root), rectangle(5.0, 5.0, 7.0, 7.0));
    assert_eq!(bounds(&mut engine, apart), rectangle(1.0, 1.0, 2.0, 2.0));
    assert!(engine.layout_bounds_scratch_space.is_empty());
}

#[test]
fn layout_runs_in_device_pixels() {
    let mut engine = Engine::new();
    let root = node(&mut engine, &[]);
    let space = engine.compute_layout(
        &Floats,
        root,
        Size { width: AvailableSpace::Definite(px(30.0)), height: AvailableSpace::MaxContent },
        s(1.5),
    );
    assert_eq!(
        space,
        Size { width: AvailableSpace::Definite(px(45.0)), height: AvailableSpace::MaxContent }
    );
    assert!(engine.computed_layouts.contains(&u64::from(root)));
}

#[test]
fn clearing_forgets_everything() {
    let mut engine = Engine::new();
    let leaf = node(&mut engine, &[]);
    let root = node(&mut engine, &[leaf]);
    place(&mut engine, root, 9.0, 9.0, 9.0, 9.0);
    lay_out(&mut engine, root);
    bounds(&mut engine, leaf);
    engine.clear();
    assert!(engine.taffy.nodes.is_empty());
    assert!(engine.absolute_layout_bounds.is_empty());
    assert!(engine.absolute_outer_origins.is_empty());
    assert!(engine.computed_layouts.is_empty());

    let again = node(&mut engine, &[]);
    assert_eq!(again, leaf);
    assert_eq!(engine.taffy.parent(again), None);
    assert_eq!(bounds(&mut engine, again), rectangle(0.0, 0.0, 0.0, 0.0));
}

#[test]
fn stretching_fills_auto_dimensions_once() {
    let mut engine = Engine::new();
    let root = node(&mut engine, &[]);
    let fill = |engine: &mut Engine, width: f32, height: f32| {
        let size = Size { width: px(width), height: px(height) };
        engine.stretch_auto_size_to_fill(&Floats, root, size, s(1.5));
        engine.taffy.style(root).size
    };
    let filled = Size { width: Dimension::Length(s(1.0)), height: Dimension::Length(s(15.0)) };
    assert_eq!(fill(&mut engine, 1.0, 10.0), filled);
    assert_eq!(fill(&mut engine, 50.0, 60.0), filled);
}

#[test]
fn requested_nodes_know_their_last_holder() {
    let mut engine = Engine::new();
    let shared = node(&mut engine, &[]);
    let first = node(&mut engine, &[shared, shared]);
    let second = node(&mut engine, &[shared]);
    assert_eq!([shared, first, second].map(u64::from), [0, 1, 2]);
    assert_eq!(engine.taffy.parent(shared), Some(second));
    assert_eq!(engine.taffy.parent(first), None);
    assert_eq!(engine.taffy.children(first), vec![shared, shared]);
    assert_eq!(engine.taffy.child_count(second), 1);
    assert_eq!(engine.taffy.get_child_id(first, 1), shared);
    assert!(engine.taffy.node(second).cache.is_empty());
    assert_eq!(*engine.taffy.layout(second), Layout::new());

    let knot = node(&mut engine, &[LayoutId(3)]);
    assert_eq!(engine.taffy.parent(knot), Some(knot));
}

#[test]
fn measured_leaves_carry_their_measurement() {
    let mut engine = Engine::new();
    let size_only = engine.request_measured_layout(&Floats, style(), px(16.0), s(1.0), 3);
    let with_baseline =
        engine.request_measured_layout_with_baseline(&Floats, style(), px(16.0), s(1.0), 4);
    let container = node(&mut engine, &[]);
    let told = (Size { width: px(5.0), height: px(6.0) }, Some(px(2.0)));
    assert_eq!(
        engine.taffy.measured(size_only, told),
        MeasuredLayout { size: told.0, first_baseline: None }
    );
    assert_eq!(
        engine.taffy.measured(with_baseline, told),
        MeasuredLayout { size: told.0, first_baseline: Some(px(2.0)) }
    );
    assert_eq!(
        engine.taffy.measured(container, told),
        MeasuredLayout { size: Size { width: px(0.0), height: px(0.0) }, first_baseline: None }
    );
    let measures: Vec<Option<u8>> = engine
        .taffy
        .nodes
        .iter()
        .map(|node| node.context.as_ref().map(|context| context.measure))
        .collect();
    assert_eq!(measures, vec![Some(3), Some(4), None]);
}

/// Notes what it is asked, and tells a size that grows with each question.
#[derive(Default)]
struct Asked {
    questions: Vec<(Size<Option<Pixels>>, Size<AvailableSpace>)>,
}

impl Measure<u32, Vec<u32>> for Asked {
    fn measure(
        &mut self,
        known_dimensions: Size<Option<Pixels>>,
        available_space: Size<AvailableSpace>,
        window: &mut u32,
        cx: &mut Vec<u32>,
    ) -> (Size<Pixels>, Option<Pixels>) {
        self.questions.push((known_dimensions, available_space));
        *window += 1;
        cx.push(*window);
        let size = Size { width: px(10.1), height: px(self.questions.len() as f32) };
        (size, Some(px(1.0)))
    }
}

#[test]
fn leaves_are_measured_once_and_in_logical_pixels() {
    let mut engine: TaffyLayoutEngine<Asked> = TaffyLayoutEngine::new();
    let with_baseline = engine.request_measured_layout_with_baseline(
        &Floats,
        style(),
        px(16.0),
        s(1.5),
        Asked::default(),
    );
    let size_only =
        engine.request_measured_layout(&Floats, style(), px(16.0), s(1.5), Asked::default());
    let empty = engine.request_layout(&Floats, style(), px(16.0), s(1.5), &[]);
    let mut window: u32 = 7;
    let mut cx: Vec<u32> = Vec::new();
    let mut measure = |id: LayoutId| {
        engine.taffy.measure_leaf(
            &Floats,
            id,
            Size { width: Some(s(30.0)), height: None },
            Size { width: AvailableSpace::MaxContent, height: AvailableSpace::Definite(px(45.0)) },
            s(1.5),
            &mut window,
            &mut cx,
        )
    };
    let size = Size { width: s(16.0), height: s(2.0) };
    assert_eq!(measure(with_baseline), LeafMetrics { size, first_baseline: Some(s(1.0)) });
    assert_eq!(measure(size_only), LeafMetrics { size, first_baseline: None });
    assert_eq!(
        measure(empty),
        LeafMetrics { size: Size { width: s(0.0), height: s(0.0) }, first_baseline: None }
    );
    assert_eq!(window, 9);
    assert_eq!(cx, vec![8, 9]);
    for id in [with_baseline, size_only] {
        let context = engine.taffy.node(id).context.as_ref().unwrap();
        assert_eq!(
            context.measure.questions,
            vec![(
                Size { width: Some(px(20.0)), height: None },
                Size {
                    width: AvailableSpace::MaxContent,
                    height: AvailableSpace::Definite(px(30.0)),
                },
            )]
        );
    }
}

#[test]
fn size_only_leaves_are_leaves_without_a_baseline() {
    let mut one = Engine::new();
    let mut other = Engine::new();
    let id = one.request_measured_layout(&Floats, style(), px(16.0), s(2.0), 3);
    let other_id =
        other.request_measured_layout_with_baseline(&Floats, style(), px(16.0), s(2.0), 3);
    assert_eq!(id, other_id);
    assert_eq!(one.taffy.style(id), other.taffy.style(id));
    let size = Size { width: px(5.0), height: px(6.0) };
    assert_eq!(
        one.taffy.measured(id, (size, Some(px(2.0)))),
        other.taffy.measured(id, (size, None))
    );
}

#[test]
fn measurements_happen_in_logical_pixels() {
    let input = measure_input(
        &Floats,
        Size { width: Some(s(30.0)), height: None },
        Size { width: AvailableSpace::MaxContent, height: AvailableSpace::Definite(px(45.0)) },
        s(1.5),
    );
    assert_eq!(input.known_dimensions, Size { width: Some(px(20.0)), height: None });
    assert_eq!(
        input.available_space,
        Size { width: AvailableSpace::MaxContent, height: AvailableSpace::Definite(px(30.0)) }
    );
}

#[test]
fn leaves_report_whole_device_pixels() {
    let size = Size { width: px(10.1), height: px(2.0) };
    let metrics =
        leaf_metrics(&Floats, MeasuredLayout { size, first_baseline: Some(px(1.0)) }, s(1.5));
    assert_eq!(
        metrics,
        LeafMetrics {
            size: Size { width: s(16.0), height: s(3.0) },
            first_baseline: Some(s(1.0)),
        }
    );
    assert_eq!(first_baseline(Some(metrics)), Some(s(1.0)));
    assert_eq!(first_baseline(None), None);
    let plain = leaf_metrics(&Floats, MeasuredLayout { size, first_baseline: None }, s(1.5));
    assert_eq!(first_baseline(Some(plain)), None);
}

#[test]
fn displays_choose_algorithms() {
    let mut engine = Engine::new();
    let leaf = node(&mut engine, &[]);
    let container = node(&mut engine, &[leaf]);
    for (display, of_leaf, of_container) in [
        (Display::Block, Algorithm::Leaf, Algorithm::Block),
        (Display::FlowRoot, Algorithm::Leaf, Algorithm::FlowRoot),
        (Display::Flex, Algorithm::Leaf, Algorithm::Flex),
        (Display::Grid, Algorithm::Leaf, Algorithm::Grid),
        (Display::Hidden, Algorithm::Hidden, Algorithm::Hidden),
    ] {
        engine.taffy.node_mut(leaf).style.display = display;
        engine.taffy.node_mut(container).style.display = display;
        assert_eq!(engine.taffy.algorithm(leaf), of_leaf);
        assert_eq!(engine.taffy.algorithm(container), of_container);
    }
    assert_eq!(first_step(true), FirstStep::Hide);
    assert_eq!(first_step(false), FirstStep::LookUp);
}

#[test]
fn calc_expressions_of_any_node_can_be_resolved() {
    let mut engine = Engine::new();
    let mut authored = style();
    authored.size.width = Length::Calc(CalcLength { handle: 8 });
    engine.request_layout(&Floats, authored, px(10.0), s(1.0), &[]);
    node(&mut engine, &[]);
    let resolve = |handle: u64| {
        f(engine.taffy.resolve_calc_value(&Floats, handle, s(200.0), s(2.0)))
    };
    assert_eq!(resolve(8), 34.0);
    assert_eq!(resolve(16), 0.0);
}

#[test]
fn figures_count_the_nodes_below_where_none_is_shared() {
    let mut engine = Engine::new();
    let leaves: Vec<LayoutId> = (0..3).map(|_| node(&mut engine, &[])).collect();
    let inner = node(&mut engine, &leaves);
    let root = node(&mut engine, &[inner]);
    node(&mut engine, &[root]);
    assert_eq!(engine.count_all_children(root), 4);
    assert_eq!(engine.get_edges(root).len(), 4);
    assert_eq!(engine.max_depth(0, root, &mut Vec::new()), 3);
}

#[test]
fn figures_count_a_shared_node_each_time() {
    let mut engine = Engine::new();
    let shared = node(&mut engine, &[]);
    let left = node(&mut engine, &[shared]);
    let deep = node(&mut engine, &[left]);
    let root = node(&mut engine, &[deep, shared]);

    assert_eq!(engine.count_all_children(root), 4);
    assert_eq!(engine.count_all_children(shared), 0);
    assert_eq!(
        engine.get_edges(root),
        vec![(root, deep), (deep, left), (left, shared), (root, shared)]
    );

    let mut notes = Vec::new();
    assert_eq!(engine.max_depth(5, root, &mut notes), 9);
    let note = |node: LayoutId, depth: u32, children: usize| DepthNote { node, depth, children };
    assert_eq!(
        notes,
        vec![
            note(root, 5, 2),
            note(deep, 0, 1),
            note(left, 0, 1),
            note(shared, 0, 0),
            note(shared, 0, 0),
        ]
    );
}

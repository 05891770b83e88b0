//! The tree under the layout algorithms.

use gpui_taffy::engine::TaffyLayoutEngine;
use gpui_taffy::geometry::{Bounds, Edges, Point, Size};
use gpui_taffy::layout_style::{
    Dimension, GridLine, LayoutStyle, LengthPercentage, LengthPercentageAuto, MaxTrackSizing,
    MinTrackSizing, TemplateComponent, TrackSizing,
};
use gpui_taffy::number::{Arithmetic, CalcLength, Pixels, Scalar};
use gpui_taffy::run::{first_baseline, first_step, Algorithm, FirstStep, Measure};
use gpui_taffy::space::AvailableSpace;
use gpui_taffy::style::{
    AbsoluteLength, AlignContent, AlignItems, DefiniteLength, Display, FlexDirection, FlexWrap,
    GridPlacement, GridTemplate, GridTemplateComponent, GridTrack, GridTrackMax, GridTrackMin,
    Length, Overflow, Position, Style,
};
use gpui_taffy::to_taffy::{border_widths_to_taffy, ToTaffy};
use gpui_taffy::tree::{GpuiTaffyTree, Layout, LayoutId, NodeContext};
use taffy::style_helpers::{fr, length, max_content, min_content, minmax, repeat};
use taffy::{
    CacheTree, LayoutBlockContainer, LayoutFlexboxContainer, LayoutGridContainer,
    LayoutPartialTree, TraversePartialTree,
};

struct Floats;

fn s(value: f32) -> Scalar {
    Scalar { bits: value.to_bits() }
}

fn f(value: Scalar) -> f32 {
    f32::from_bits(value.bits)
}

fn px(value: f32) -> Pixels {
    Pixels(s(value))
}

fn round_half_toward_zero(value: f32) -> f32 {
    if value.fract().abs() == 0.5 {
        value.trunc()
    } else {
        value.round()
    }
}

impl Arithmetic for Floats {
    fn sum(&self, a: Scalar, b: Scalar) -> Scalar {
        s(f(a) + f(b))
    }

    fn difference(&self, a: Scalar, b: Scalar) -> Scalar {
        s(f(a) - f(b))
    }

    fn product(&self, a: Scalar, b: Scalar) -> Scalar {
        s(f(a) * f(b))
    }

    fn quotient(&self, a: Scalar, b: Scalar) -> Scalar {
        s(f(a) / f(b))
    }

    fn non_negative(&self, a: Scalar) -> Scalar {
        s(f(a).max(0.0))
    }

    fn round_half_toward_zero(&self, a: Scalar) -> Scalar {
        s(round_half_toward_zero(f(a)))
    }

    fn round_to_device_pixel(&self, a: Scalar, scale_factor: Scalar) -> Scalar {
        s(round_half_toward_zero(f(a) * f(scale_factor)))
    }

    fn round_stroke_to_device_pixel(&self, a: Scalar, scale_factor: Scalar) -> Scalar {
        if f(a) == 0.0 {
            s(0.0)
        } else {
            s(round_half_toward_zero(f(a) * f(scale_factor)).max(1.0))
        }
    }

    fn ceil_to_device_pixel(&self, a: Scalar, scale_factor: Scalar) -> Scalar {
        s((f(a) * f(scale_factor)).ceil())
    }

    // The expression with handle `8 * n` is `n` percent plus `n` rems.
    fn resolve_calc(
        &self,
        length: CalcLength,
        basis: Scalar,
        rem_size: Pixels,
        scale_factor: Scalar,
    ) -> Scalar {
        let n = (length.handle / 8) as f32;
        s(n / 100.0 * f(basis) + n * f(rem_size.0) * f(scale_factor))
    }
}

fn taffy_dimension(value: Dimension) -> taffy::Dimension {
    match value {
        Dimension::Length(v) => taffy::Dimension::length(f(v)),
        Dimension::Percent(v) => taffy::Dimension::percent(f(v)),
        Dimension::Calc(_) => unreachable!("no style of these tests is laid out with one"),
        Dimension::Auto => taffy::Dimension::auto(),
    }
}

fn taffy_length(value: LengthPercentage) -> taffy::LengthPercentage {
    match value {
        LengthPercentage::Length(v) => taffy::LengthPercentage::length(f(v)),
        LengthPercentage::Percent(v) => taffy::LengthPercentage::percent(f(v)),
    }
}

fn taffy_length_auto(value: LengthPercentageAuto) -> taffy::LengthPercentageAuto {
    match value {
        LengthPercentageAuto::Length(v) => taffy::LengthPercentageAuto::length(f(v)),
        LengthPercentageAuto::Percent(v) => taffy::LengthPercentageAuto::percent(f(v)),
        LengthPercentageAuto::Calc(_) => {
            unreachable!("no style of these tests is laid out with one")
        }
        LengthPercentageAuto::Auto => taffy::LengthPercentageAuto::auto(),
    }
}

fn taffy_size<T: Copy, U>(value: Size<T>, each: impl Fn(T) -> U) -> taffy::Size<U> {
    taffy::Size { width: each(value.width), height: each(value.height) }
}

fn taffy_rect<T: Copy, U>(value: Edges<T>, each: impl Fn(T) -> U) -> taffy::Rect<U> {
    taffy::Rect {
        top: each(value.top),
        right: each(value.right),
        bottom: each(value.bottom),
        left: each(value.left),
    }
}

fn taffy_track(track: &TrackSizing) -> taffy::TrackSizingFunction {
    let min: taffy::MinTrackSizingFunction = match track.min {
        MinTrackSizing::Length(v) => length(f(v)),
        MinTrackSizing::Auto => taffy::style_helpers::auto(),
        MinTrackSizing::MinContent => min_content(),
        MinTrackSizing::MaxContent => max_content(),
    };
    let max: taffy::MaxTrackSizingFunction = match track.max {
        MaxTrackSizing::Length(v) => length(f(v)),
        MaxTrackSizing::Fr(v) => fr(f(v)),
        MaxTrackSizing::Auto => taffy::style_helpers::auto(),
        MaxTrackSizing::MinContent => min_content(),
        MaxTrackSizing::MaxContent => max_content(),
    };
    minmax(min, max)
}

fn taffy_template(template: &[TemplateComponent]) -> Vec<taffy::GridTemplateComponent<String>> {
    template
        .iter()
        .map(|component| match component {
            TemplateComponent::Single(track) => {
                taffy::GridTemplateComponent::Single(taffy_track(track))
            }
            TemplateComponent::Repeat { count, tracks } => {
                repeat(*count, tracks.iter().map(taffy_track).collect())
            }
        })
        .collect()
}

fn taffy_align_items(value: AlignItems) -> taffy::AlignItems {
    match value {
        AlignItems::Start => taffy::AlignItems::START,
        AlignItems::End => taffy::AlignItems::END,
        AlignItems::FlexStart => taffy::AlignItems::FLEX_START,
        AlignItems::FlexEnd => taffy::AlignItems::FLEX_END,
        AlignItems::Center => taffy::AlignItems::CENTER,
        AlignItems::Baseline => taffy::AlignItems::BASELINE,
        AlignItems::Stretch => taffy::AlignItems::STRETCH,
    }
}

fn taffy_align_content(value: AlignContent) -> taffy::AlignContent {
    match value {
        AlignContent::Start => taffy::AlignContent::START,
        AlignContent::End => taffy::AlignContent::END,
        AlignContent::FlexStart => taffy::AlignContent::FLEX_START,
        AlignContent::FlexEnd => taffy::AlignContent::FLEX_END,
        AlignContent::Center => taffy::AlignContent::CENTER,
        AlignContent::Stretch => taffy::AlignContent::STRETCH,
        AlignContent::SpaceBetween => taffy::AlignContent::SPACE_BETWEEN,
        AlignContent::SpaceEvenly => taffy::AlignContent::SPACE_EVENLY,
        AlignContent::SpaceAround => taffy::AlignContent::SPACE_AROUND,
    }
}

fn taffy_style(style: &LayoutStyle) -> taffy::Style {
    taffy::Style {
        display: match style.display {
            Display::Block => taffy::Display::Block,
            Display::FlowRoot => taffy::Display::FlowRoot,
            Display::Flex => taffy::Display::Flex,
            Display::Grid => taffy::Display::Grid,
            Display::Hidden => taffy::Display::None,
        },
        inset: taffy_rect(style.inset, taffy_length_auto),
        size: taffy_size(style.size, taffy_dimension),
        min_size: taffy_size(style.min_size, taffy_dimension),
        max_size: taffy_size(style.max_size, taffy_dimension),
        margin: taffy_rect(style.margin, taffy_length_auto),
        padding: taffy_rect(style.padding, taffy_length),
        border: taffy_rect(style.border, taffy_length),
        align_items: style.align_items.map(taffy_align_items),
        align_content: style.align_content.map(taffy_align_content),
        gap: taffy_size(style.gap, taffy_length),
        flex_direction: match style.flex_direction {
            FlexDirection::Row => taffy::FlexDirection::Row,
            FlexDirection::Column => taffy::FlexDirection::Column,
            FlexDirection::RowReverse => taffy::FlexDirection::RowReverse,
            FlexDirection::ColumnReverse => taffy::FlexDirection::ColumnReverse,
        },
        flex_wrap: match style.flex_wrap {
            FlexWrap::NoWrap => taffy::FlexWrap::NoWrap,
            FlexWrap::Wrap => taffy::FlexWrap::Wrap,
            FlexWrap::WrapReverse => taffy::FlexWrap::WrapReverse,
        },
        flex_basis: taffy_dimension(style.flex_basis),
        flex_grow: f(style.flex_grow),
        flex_shrink: f(style.flex_shrink),
        grid_template_rows: taffy_template(&style.grid_template_rows),
        grid_template_columns: taffy_template(&style.grid_template_columns),
        ..Default::default()
    }
}

fn available(space: taffy::AvailableSpace) -> AvailableSpace {
    match space {
        taffy::AvailableSpace::Definite(value) => AvailableSpace::Definite(px(value)),
        taffy::AvailableSpace::MinContent => AvailableSpace::MinContent,
        taffy::AvailableSpace::MaxContent => AvailableSpace::MaxContent,
    }
}

fn taffy_available(space: AvailableSpace) -> taffy::AvailableSpace {
    match space {
        AvailableSpace::Definite(pixels) => taffy::AvailableSpace::Definite(f(pixels.0)),
        AvailableSpace::MinContent => taffy::AvailableSpace::MinContent,
        AvailableSpace::MaxContent => taffy::AvailableSpace::MaxContent,
    }
}

/// Measures every leaf alike.
struct Fixed {
    size: Size<Pixels>,
    first_baseline: Option<Pixels>,
}

impl Measure<(), ()> for Fixed {
    fn measure(
        &mut self,
        _: Size<Option<Pixels>>,
        _: Size<AvailableSpace>,
        _: &mut (),
        _: &mut (),
    ) -> (Size<Pixels>, Option<Pixels>) {
        (self.size, self.first_baseline)
    }
}

type Tree = GpuiTaffyTree<Fixed>;
type Engine = TaffyLayoutEngine<Fixed>;

struct LayoutRun<'a> {
    tree: &'a mut Tree,
    styles: Vec<taffy::Style>,
    scale_factor: f32,
}

fn id_of(node: taffy::NodeId) -> LayoutId {
    LayoutId::from(u64::from(node))
}

fn node_of(id: LayoutId) -> taffy::NodeId {
    taffy::NodeId::from(u64::from(id))
}

impl LayoutRun<'_> {
    fn style(&self, node: taffy::NodeId) -> &taffy::Style {
        &self.styles[u64::from(node) as usize]
    }

    fn compute_node_layout(
        &mut self,
        node: taffy::NodeId,
        inputs: taffy::LayoutInput,
        block_context: Option<&mut taffy::BlockContext<'_>>,
    ) -> taffy::LayoutOutput {
        match first_step(inputs.run_mode == taffy::RunMode::PerformHiddenLayout) {
            FirstStep::Hide => return taffy::compute_hidden_layout(self, node),
            FirstStep::LookUp => {}
        }
        taffy::compute_cached_layout(self, node, inputs, |run, node, inputs| {
            match run.tree.algorithm(id_of(node)) {
                Algorithm::Hidden => taffy::compute_hidden_layout(run, node),
                Algorithm::Leaf => {
                    let style = run.style(node).clone();
                    let scale_factor = s(run.scale_factor);
                    let mut metrics = None;
                    let mut output = taffy::compute_leaf_layout(
                        inputs,
                        &style,
                        |_, _| 0.0,
                        |known, space| {
                            let leaf = run.tree.measure_leaf(
                                &Floats,
                                id_of(node),
                                Size { width: known.width.map(s), height: known.height.map(s) },
                                Size {
                                    width: available(space.width),
                                    height: available(space.height),
                                },
                                scale_factor,
                                &mut (),
                                &mut (),
                            );
                            metrics = Some(leaf);
                            taffy::Size { width: f(leaf.size.width), height: f(leaf.size.height) }
                        },
                    );
                    output.first_baselines.y = first_baseline(metrics).map(f);
                    output
                }
                Algorithm::Block => taffy::compute_block_layout(run, node, inputs, block_context),
                Algorithm::FlowRoot => taffy::compute_block_layout(run, node, inputs, None),
                Algorithm::Flex => taffy::compute_flexbox_layout(run, node, inputs),
                Algorithm::Grid => taffy::compute_grid_layout(run, node, inputs),
            }
        })
    }
}

impl TraversePartialTree for LayoutRun<'_> {
    type ChildIter<'a>
        = std::vec::IntoIter<taffy::NodeId>
    where
        Self: 'a;

    fn child_ids(&self, parent: taffy::NodeId) -> Self::ChildIter<'_> {
        let children: Vec<taffy::NodeId> =
            self.tree.children(id_of(parent)).into_iter().map(node_of).collect();
        children.into_iter()
    }

    fn child_count(&self, parent: taffy::NodeId) -> usize {
        self.tree.child_count(id_of(parent))
    }

    fn get_child_id(&self, parent: taffy::NodeId, index: usize) -> taffy::NodeId {
        node_of(self.tree.get_child_id(id_of(parent), index))
    }
}

impl CacheTree for LayoutRun<'_> {
    fn cache_get(
        &self,
        node: taffy::NodeId,
        input: &taffy::LayoutInput,
    ) -> Option<taffy::LayoutOutput> {
        self.tree.node(id_of(node)).cache.get(input)
    }

    fn cache_store(
        &mut self,
        node: taffy::NodeId,
        input: &taffy::LayoutInput,
        output: taffy::LayoutOutput,
    ) {
        self.tree.node_mut(id_of(node)).cache.store(input, output);
    }

    fn cache_clear(&mut self, node: taffy::NodeId) {
        self.tree.cache_clear(id_of(node));
    }
}

impl LayoutPartialTree for LayoutRun<'_> {
    type CustomIdent = String;
    type CoreContainerStyle<'a>
        = &'a taffy::Style
    where
        Self: 'a;

    fn get_core_container_style(&self, node: taffy::NodeId) -> Self::CoreContainerStyle<'_> {
        self.style(node)
    }

    fn set_unrounded_layout(&mut self, node: taffy::NodeId, layout: &taffy::Layout) {
        self.tree.set_unrounded_layout(
            id_of(node),
            &Layout {
                location: Point { x: s(layout.location.x), y: s(layout.location.y) },
                size: Size { width: s(layout.size.width), height: s(layout.size.height) },
            },
        );
    }

    fn compute_child_layout(
        &mut self,
        node: taffy::NodeId,
        inputs: taffy::LayoutInput,
    ) -> taffy::LayoutOutput {
        self.compute_node_layout(node, inputs, None)
    }
}

impl LayoutFlexboxContainer for LayoutRun<'_> {
    type FlexboxContainerStyle<'a>
        = &'a taffy::Style
    where
        Self: 'a;
    type FlexboxItemStyle<'a>
        = &'a taffy::Style
    where
        Self: 'a;

    fn get_flexbox_container_style(&self, node: taffy::NodeId) -> Self::FlexboxContainerStyle<'_> {
        self.style(node)
    }

    fn get_flexbox_child_style(&self, node: taffy::NodeId) -> Self::FlexboxItemStyle<'_> {
        self.style(node)
    }
}

impl LayoutGridContainer for LayoutRun<'_> {
    type GridContainerStyle<'a>
        = &'a taffy::Style
    where
        Self: 'a;
    type GridItemStyle<'a>
        = &'a taffy::Style
    where
        Self: 'a;

    fn get_grid_container_style(&self, node: taffy::NodeId) -> Self::GridContainerStyle<'_> {
        self.style(node)
    }

    fn get_grid_child_style(&self, node: taffy::NodeId) -> Self::GridItemStyle<'_> {
        self.style(node)
    }
}

impl LayoutBlockContainer for LayoutRun<'_> {
    type BlockContainerStyle<'a>
        = &'a taffy::Style
    where
        Self: 'a;
    type BlockItemStyle<'a>
        = &'a taffy::Style
    where
        Self: 'a;

    fn get_block_container_style(&self, node: taffy::NodeId) -> Self::BlockContainerStyle<'_> {
        self.style(node)
    }

    fn get_block_child_style(&self, node: taffy::NodeId) -> Self::BlockItemStyle<'_> {
        self.style(node)
    }

    fn compute_block_child_layout(
        &mut self,
        node: taffy::NodeId,
        inputs: taffy::LayoutInput,
        context: Option<&mut taffy::BlockContext<'_>>,
    ) -> taffy::LayoutOutput {
        self.compute_node_layout(node, inputs, context)
    }
}

fn auto_size() -> Size<Dimension> {
    Size { width: Dimension::Auto, height: Dimension::Auto }
}

fn all_edges<T: Copy>(value: T) -> Edges<T> {
    Edges { top: value, right: value, bottom: value, left: value }
}

fn default_style() -> LayoutStyle {
    let automatic = GridLine { start: GridPlacement::Auto, end: GridPlacement::Auto };
    LayoutStyle {
        display: Display::Flex,
        overflow: Point { x: Overflow::Visible, y: Overflow::Visible },
        scrollbar_width: s(0.0),
        position: Position::Relative,
        inset: all_edges(LengthPercentageAuto::Auto),
        size: auto_size(),
        min_size: auto_size(),
        max_size: auto_size(),
        aspect_ratio: None,
        margin: all_edges(LengthPercentageAuto::Length(s(0.0))),
        padding: all_edges(LengthPercentage::Length(s(0.0))),
        border: all_edges(LengthPercentage::Length(s(0.0))),
        align_items: None,
        align_self: None,
        align_content: None,
        justify_content: None,
        gap: Size {
            width: LengthPercentage::Length(s(0.0)),
            height: LengthPercentage::Length(s(0.0)),
        },
        flex_direction: FlexDirection::Row,
        flex_wrap: FlexWrap::NoWrap,
        flex_basis: Dimension::Auto,
        flex_grow: s(0.0),
        flex_shrink: s(1.0),
        grid_template_rows: Vec::new(),
        grid_template_columns: Vec::new(),
        grid_row: automatic,
        grid_column: automatic,
    }
}

fn authored_style() -> Style {
    let zero = DefiniteLength::Absolute(AbsoluteLength::Pixels(px(0.0)));
    let auto = Size { width: Length::Auto, height: Length::Auto };
    Style {
        display: Display::Block,
        overflow: Point { x: Overflow::Visible, y: Overflow::Visible },
        scrollbar_width: AbsoluteLength::Pixels(px(0.0)),
        position: Position::Relative,
        inset: all_edges(Length::Auto),
        size: auto,
        min_size: auto,
        max_size: auto,
        aspect_ratio: None,
        margin: all_edges(Length::Definite(zero)),
        padding: all_edges(zero),
        border_widths: all_edges(AbsoluteLength::Pixels(px(0.0))),
        align_items: None,
        align_self: None,
        align_content: None,
        justify_content: None,
        gap: Size { width: zero, height: zero },
        flex_direction: FlexDirection::Row,
        flex_wrap: FlexWrap::NoWrap,
        flex_basis: Length::Auto,
        flex_grow: s(0.0),
        flex_shrink: s(1.0),
        grid_rows: None,
        grid_cols: None,
        grid_location: None,
    }
}

fn pixels(value: f32) -> Length {
    Length::Definite(DefiniteLength::Absolute(AbsoluteLength::Pixels(px(value))))
}

fn fixed(
    width: f32,
    height: f32,
    first_baseline: Option<f32>,
) -> Option<NodeContext<Fixed>> {
    Some(NodeContext {
        measure: Fixed {
            size: Size { width: px(width), height: px(height) },
            first_baseline: first_baseline.map(px),
        },
        reports_baseline: true,
    })
}

fn fixed_leaf(
    tree: &mut Tree,
    width: f32,
    height: f32,
    first_baseline: Option<f32>,
) -> LayoutId {
    let mut style = default_style();
    style.size.width = Dimension::Length(s(width));
    tree.new_node(style, Vec::new(), &[], fixed(width, height, first_baseline))
}

fn fixed_sized_leaf(
    tree: &mut Tree,
    width: f32,
    height: f32,
    first_baseline: Option<f32>,
) -> LayoutId {
    let mut style = default_style();
    style.size =
        Size { width: Dimension::Length(s(width)), height: Dimension::Length(s(height)) };
    tree.new_node(style, Vec::new(), &[], fixed(width, height, first_baseline))
}

fn flex_container(
    tree: &mut Tree,
    children: &[LayoutId],
    configure: impl FnOnce(&mut LayoutStyle),
) -> LayoutId {
    let mut style = default_style();
    style.display = Display::Flex;
    style.flex_direction = FlexDirection::Row;
    style.align_items = Some(AlignItems::Baseline);
    configure(&mut style);
    tree.new_node(style, Vec::new(), children, None)
}

fn compute_layout_in(
    tree: &mut Tree,
    root: LayoutId,
    space: taffy::Size<taffy::AvailableSpace>,
    scale_factor: f32,
) {
    let styles = tree.nodes.iter().map(|node| taffy_style(&node.style)).collect();
    let mut run = LayoutRun { tree, styles, scale_factor };
    taffy::compute_root_layout(&mut run, node_of(root), space);
}

fn compute_test_layout_at_scale(tree: &mut Tree, root: LayoutId, scale_factor: f32) {
    compute_layout_in(
        tree,
        root,
        taffy::Size {
            width: taffy::AvailableSpace::MaxContent,
            height: taffy::AvailableSpace::MaxContent,
        },
        scale_factor,
    );
}

fn compute_test_layout(tree: &mut Tree, root: LayoutId) {
    compute_test_layout_at_scale(tree, root, 1.);
}

fn x(tree: &Tree, id: LayoutId) -> f32 {
    f(tree.layout(id).location.x)
}

fn y(tree: &Tree, id: LayoutId) -> f32 {
    f(tree.layout(id).location.y)
}

fn height(tree: &Tree, id: LayoutId) -> f32 {
    f(tree.layout(id).size.height)
}

fn bottom(layout: &Layout) -> f32 {
    f(layout.location.y) + f(layout.size.height)
}

#[test]
fn measured_baselines_are_scoped_to_each_compute_root() {
    let mut tree = Tree::new();
    let first_large = fixed_leaf(&mut tree, 20., 32., Some(24.));
    let first_small = fixed_leaf(&mut tree, 20., 12., Some(9.));
    let first_root = flex_container(&mut tree, &[first_large, first_small], |_| {});
    let second_large = fixed_leaf(&mut tree, 20., 32., Some(24.));
    let second_small = fixed_leaf(&mut tree, 20., 12., Some(9.));
    let second_root = flex_container(&mut tree, &[second_large, second_small], |_| {});

    compute_test_layout(&mut tree, first_root);
    compute_test_layout(&mut tree, second_root);

    assert_eq!(y(&tree, first_large), 0.);
    assert_eq!(y(&tree, second_large), 0.);
    assert_eq!(y(&tree, first_small), 15.);
    assert_eq!(y(&tree, second_small), 15.);
}

#[test]
fn wrapped_flex_lines_align_their_own_baseline_groups() {
    let mut tree = Tree::new();
    let leaves = [
        fixed_leaf(&mut tree, 30., 32., Some(24.)),
        fixed_leaf(&mut tree, 30., 12., Some(9.)),
        fixed_leaf(&mut tree, 30., 32., Some(24.)),
        fixed_leaf(&mut tree, 30., 12., Some(9.)),
    ];
    let root = flex_container(&mut tree, &leaves, |style| {
        style.flex_wrap = FlexWrap::Wrap;
        style.align_content = Some(AlignContent::Stretch);
        style.size =
            Size { width: Dimension::Length(s(60.)), height: Dimension::Length(s(104.)) };
    });

    compute_test_layout(&mut tree, root);

    let layouts = leaves.map(|leaf| *tree.layout(leaf));
    assert!(f(layouts[0].location.y) < f(layouts[2].location.y));
    assert!(bottom(&layouts[0]) <= f(layouts[2].location.y));
    assert!(bottom(&layouts[1]) < bottom(&layouts[0]));
    assert!(bottom(&layouts[3]) < bottom(&layouts[2]));
}

#[test]
fn baseline_less_flex_items_synthesize_their_bottom_edge() {
    let mut tree = Tree::new();
    let box_node = fixed_leaf(&mut tree, 32., 32., None);
    let text_node = fixed_leaf(&mut tree, 20., 16., Some(12.));
    let root = flex_container(&mut tree, &[box_node, text_node], |_| {});

    compute_test_layout(&mut tree, root);

    assert!(bottom(tree.layout(text_node)) > bottom(tree.layout(box_node)));
    assert!(height(&tree, root) > height(&tree, box_node));
}

#[test]
fn explicitly_sized_measured_leaves_preserve_their_baselines() {
    let mut tree = Tree::new();
    let large = fixed_sized_leaf(&mut tree, 20., 32., Some(24.));
    let small = fixed_sized_leaf(&mut tree, 20., 12., Some(9.));
    let root = flex_container(&mut tree, &[large, small], |_| {});

    compute_test_layout(&mut tree, root);

    assert_eq!(y(&tree, large), 0.);
    assert_eq!(y(&tree, small), 15.);
}

#[test]
fn nested_flex_containers_export_their_corrected_first_baseline() {
    let mut tree = Tree::new();
    let nested_small = fixed_leaf(&mut tree, 20., 12., Some(9.));
    let nested_large = fixed_leaf(&mut tree, 20., 32., Some(24.));
    let nested = flex_container(&mut tree, &[nested_small, nested_large], |_| {});
    let outer_small = fixed_leaf(&mut tree, 20., 12., Some(9.));
    let root = flex_container(&mut tree, &[nested, outer_small], |_| {});

    compute_test_layout(&mut tree, root);

    let nested_origin = y(&tree, nested);
    let nested_small_y = nested_origin + y(&tree, nested_small);
    let nested_large_y = nested_origin + y(&tree, nested_large);
    assert_eq!(nested_small_y, y(&tree, outer_small));
    assert!(nested_large_y < nested_small_y);
}

#[test]
fn fractional_baselines_remain_aligned_after_layout_and_paint_snapping() {
    let scale_factor = 1.25;
    let large_baseline = 24.3 / scale_factor;
    let small_baseline = 9.7 / scale_factor;
    let mut tree = Tree::new();
    let large = fixed_leaf(&mut tree, 20., 32. / scale_factor, Some(large_baseline));
    let small = fixed_leaf(&mut tree, 20., 12. / scale_factor, Some(small_baseline));
    let root = flex_container(&mut tree, &[large, small], |_| {});

    compute_test_layout_at_scale(&mut tree, root, scale_factor);

    let painted_baseline = |node: LayoutId, baseline: f32| {
        let snapped_origin = round_half_toward_zero(y(&tree, node));
        round_half_toward_zero(snapped_origin + baseline * scale_factor)
    };
    assert_eq!(
        painted_baseline(large, large_baseline),
        painted_baseline(small, small_baseline)
    );
}

#[test]
fn custom_tree_dispatches_block_grid_and_hidden_layouts() {
    let mut tree = Tree::new();

    let first_block_child = fixed_leaf(&mut tree, 10., 10., None);
    let second_block_child = fixed_leaf(&mut tree, 10., 20., None);
    let mut block_style = default_style();
    block_style.display = Display::Block;
    let block =
        tree.new_node(block_style, Vec::new(), &[first_block_child, second_block_child], None);
    compute_test_layout(&mut tree, block);
    assert_eq!(y(&tree, second_block_child), 10.);
    assert_eq!(height(&tree, block), 30.);

    let first_grid_child = fixed_leaf(&mut tree, 10., 10., None);
    let second_grid_child = fixed_leaf(&mut tree, 10., 10., None);
    let mut grid_style = default_style();
    grid_style.display = Display::Grid;
    let track = TrackSizing {
        min: MinTrackSizing::Length(s(20.)),
        max: MaxTrackSizing::Length(s(20.)),
    };
    grid_style.grid_template_columns =
        vec![TemplateComponent::Single(track), TemplateComponent::Single(track)];
    let grid = tree.new_node(grid_style, Vec::new(), &[first_grid_child, second_grid_child], None);
    compute_test_layout(&mut tree, grid);
    assert_eq!(x(&tree, first_grid_child), 0.);
    assert_eq!(x(&tree, second_grid_child), 20.);

    let hidden = fixed_leaf(&mut tree, 40., 40., Some(30.));
    tree.node_mut(hidden).style.display = Display::Hidden;
    compute_test_layout(&mut tree, hidden);
    assert_eq!(tree.layout(hidden).size, Size { width: s(0.), height: s(0.) });
}

#[test]
fn border_widths_to_taffy_use_stroke_snapping() {
    let border_widths = Edges {
        top: AbsoluteLength::Pixels(px(0.0)),
        right: AbsoluteLength::Pixels(px(0.4)),
        bottom: AbsoluteLength::Pixels(px(0.5)),
        left: AbsoluteLength::Pixels(px(1.6)),
    };
    let taffy_border = taffy_rect(
        border_widths_to_taffy(&Floats, &border_widths, px(16.0), s(1.0)),
        taffy_length,
    );

    assert_eq!(taffy_border.top, taffy::LengthPercentage::length(0.0));
    assert_eq!(taffy_border.right, taffy::LengthPercentage::length(1.0));
    assert_eq!(taffy_border.bottom, taffy::LengthPercentage::length(1.0));
    assert_eq!(taffy_border.left, taffy::LengthPercentage::length(2.0));
}

#[test]
fn grid_templates_preserve_mixed_tracks_and_repeat() {
    let mut style = authored_style();
    style.grid_cols = Some(GridTemplate {
        tracks: vec![
            GridTemplateComponent::Track(GridTrack::MaxContent),
            GridTemplateComponent::Track(GridTrack::MinMax {
                min: GridTrackMin::Px(px(0.)),
                max: GridTrackMax::Fr(s(1.)),
            }),
            GridTemplateComponent::Track(GridTrack::Auto),
            GridTemplateComponent::Repeat {
                count: 2,
                tracks: vec![GridTrack::Px(px(48.)), GridTrack::Fr(s(2.))],
            },
        ],
    });
    style.grid_rows = Some(GridTemplate {
        tracks: vec![GridTemplateComponent::Track(GridTrack::MinContent)],
    });

    let layout_style: LayoutStyle = style.to_taffy(&Floats, px(16.), s(1.));
    let taffy_style = taffy_style(&layout_style);

    assert_eq!(
        taffy_style.grid_template_columns,
        vec![
            taffy::GridTemplateComponent::Single(max_content()),
            taffy::GridTemplateComponent::Single(minmax(length(0.), fr(1.))),
            taffy::GridTemplateComponent::Single(taffy::style_helpers::auto()),
            repeat(2, vec![length(48.), fr(2.)]),
        ]
    );
    assert_eq!(
        taffy_style.grid_template_rows,
        vec![taffy::GridTemplateComponent::Single(min_content())]
    );
}

#[test]
fn fixed_tracks_are_laid_out_in_device_pixels() {
    let mut engine = Engine::new();
    let mut container = authored_style();
    container.display = Display::Grid;
    container.grid_cols = Some(GridTemplate {
        tracks: vec![
            GridTemplateComponent::Track(GridTrack::Px(px(10.))),
            GridTemplateComponent::Track(GridTrack::Px(px(10.))),
        ],
    });
    let first = engine.request_layout(&Floats, authored_style(), px(16.), s(2.), &[]);
    let second = engine.request_layout(&Floats, authored_style(), px(16.), s(2.), &[]);
    let root = engine.request_layout(&Floats, container, px(16.), s(2.), &[first, second]);
    assert_eq!(
        taffy_style(engine.taffy.style(root)).grid_template_columns,
        vec![
            taffy::GridTemplateComponent::Single(length(20.)),
            taffy::GridTemplateComponent::Single(length(20.)),
        ]
    );
    compute_test_layout_at_scale(&mut engine.taffy, root, 2.);
    let bounds = engine.layout_bounds(&Floats, second, s(2.));
    assert_eq!(bounds.origin.x, px(10.));
    assert_eq!(bounds.size.width, px(10.));
}

#[test]
fn the_default_layout_style_is_that_of_the_algorithms() {
    assert_eq!(taffy_style(&default_style()), taffy::Style::default());
}

fn filled_caches(tree: &Tree) -> Vec<bool> {
    tree.nodes.iter().map(|node| !node.cache.is_empty()).collect()
}

#[test]
fn new_nodes_have_empty_caches_and_layout_fills_them() {
    let mut tree = Tree::new();
    let leaf = fixed_leaf(&mut tree, 10., 10., None);
    let root = flex_container(&mut tree, &[leaf], |_| {});
    assert_eq!(filled_caches(&tree), vec![false, false]);
    compute_test_layout(&mut tree, root);
    assert_eq!(filled_caches(&tree), vec![true, true]);
    tree.cache_clear(leaf);
    assert_eq!(filled_caches(&tree), vec![false, true]);
}

#[test]
fn a_new_style_clears_the_caches_of_the_node_and_its_ancestors_only() {
    let mut tree = Tree::new();
    let leaf = fixed_leaf(&mut tree, 10., 10., None);
    let sibling = fixed_leaf(&mut tree, 10., 10., None);
    let inner = flex_container(&mut tree, &[leaf, sibling], |_| {});
    let cousin = fixed_leaf(&mut tree, 10., 10., None);
    let root = flex_container(&mut tree, &[inner, cousin], |_| {});
    compute_test_layout(&mut tree, root);
    assert_eq!(filled_caches(&tree), vec![true; 5]);

    let mut style = default_style();
    style.size.width = Dimension::Length(s(30.));
    tree.set_style(leaf, style);
    assert_eq!(filled_caches(&tree), vec![false, true, false, true, false]);

    compute_test_layout(&mut tree, root);
    assert_eq!(f(tree.layout(leaf).size.width), 30.);
    assert_eq!(x(&tree, sibling), 30.);
    assert_eq!(x(&tree, cousin), 40.);
}

#[test]
fn measured_leaves_round_up_and_negative_sizes_take_no_space() {
    let mut tree = Tree::new();
    let leaf = tree.new_node(default_style(), Vec::new(), &[], fixed(10.2, -3.0, None));
    compute_test_layout_at_scale(&mut tree, leaf, 1.5);
    assert_eq!(f(tree.layout(leaf).size.width), 16.);
    assert_eq!(height(&tree, leaf), 0.);
}

#[test]
fn leaves_that_are_not_measured_take_no_space_and_have_no_baseline() {
    let mut tree = Tree::new();
    let empty = tree.new_node(default_style(), Vec::new(), &[], None);
    let text = fixed_leaf(&mut tree, 20., 12., Some(9.));
    let root = flex_container(&mut tree, &[empty, text], |_| {});
    compute_test_layout(&mut tree, root);
    assert_eq!(height(&tree, empty), 0.);
    assert_eq!(y(&tree, empty), 9.);
    assert_eq!(y(&tree, text), 0.);
}

#[test]
fn leaves_requested_without_a_baseline_have_none() {
    let mut engine = Engine::new();
    let told = || Fixed {
        size: Size { width: px(20.), height: px(12.) },
        first_baseline: Some(px(9.)),
    };
    let mut container = authored_style();
    container.display = Display::Flex;
    container.align_items = Some(AlignItems::Baseline);

    let silent =
        engine.request_measured_layout(&Floats, authored_style(), px(16.), s(1.), told());
    let speaking = engine.request_measured_layout_with_baseline(
        &Floats,
        authored_style(),
        px(16.),
        s(1.),
        told(),
    );
    let root = engine.request_layout(&Floats, container, px(16.), s(1.), &[silent, speaking]);
    compute_test_layout(&mut engine.taffy, root);
    assert_eq!(y(&engine.taffy, silent), 0.);
    assert_eq!(y(&engine.taffy, speaking), 3.);
}

#[test]
fn calc_lengths_are_resolved_by_the_nodes_that_keep_them() {
    let mut engine = Engine::new();
    let mut child = authored_style();
    child.size.width = Length::Calc(CalcLength { handle: 16 });

    let child = engine.request_layout(&Floats, child, px(10.), s(1.), &[]);
    assert_eq!(engine.taffy.style(child).size.width, Dimension::Calc(16));
    assert_eq!(engine.taffy.node(child).calc_lengths, vec![CalcLength { handle: 16 }]);

    let resolve = |handle: u64| {
        f(engine.taffy.resolve_calc_value(&Floats, handle, s(100.), s(2.)))
    };
    assert_eq!(resolve(16), 66.);
    assert_eq!(resolve(24), 0.);
}

#[test]
fn roots_stretch_to_fill_and_keep_explicit_dimensions() {
    let mut engine = Engine::new();
    let mut style = authored_style();
    style.size.height = pixels(20.);
    let child = engine.request_layout(&Floats, authored_style(), px(16.), s(1.5), &[]);
    let root = engine.request_layout(&Floats, style, px(16.), s(1.5), &[child]);
    compute_test_layout_at_scale(&mut engine.taffy, root, 1.5);
    assert_eq!(filled_caches(&engine.taffy), vec![true, true]);

    let window = Size { width: px(101.), height: px(300.) };
    engine.stretch_auto_size_to_fill(&Floats, root, window, s(1.5));
    assert_eq!(
        engine.taffy.style(root).size,
        Size { width: Dimension::Length(s(151.)), height: Dimension::Length(s(30.)) }
    );
    assert_eq!(filled_caches(&engine.taffy), vec![true, false]);

    compute_test_layout_at_scale(&mut engine.taffy, root, 1.5);
    let other = Size { width: px(7.), height: px(7.) };
    engine.stretch_auto_size_to_fill(&Floats, root, other, s(1.5));
    assert_eq!(
        engine.taffy.style(root).size,
        Size { width: Dimension::Length(s(151.)), height: Dimension::Length(s(30.)) }
    );
    assert_eq!(filled_caches(&engine.taffy), vec![true, true]);
}

fn rectangle(left: f32, top: f32, width: f32, height: f32) -> Bounds<Pixels> {
    Bounds {
        origin: Point { x: px(left), y: px(top) },
        size: Size { width: px(width), height: px(height) },
    }
}

#[test]
fn shares_of_a_row_close_and_are_computed_anew_after_relayout() {
    let mut engine = Engine::new();
    let share = || {
        let mut style = authored_style();
        style.flex_grow = s(1.0);
        style.flex_basis = pixels(0.);
        style.size.height = pixels(10.);
        style
    };
    let mut row = authored_style();
    row.display = Display::Flex;
    row.size.width =
        Length::Definite(DefiniteLength::Fraction(s(1.0)));

    let parts: Vec<LayoutId> =
        (0..3).map(|_| engine.request_layout(&Floats, share(), px(16.), s(2.), &[])).collect();
    let root = engine.request_layout(&Floats, row, px(16.), s(2.), &parts);

    let lay_out = |engine: &mut Engine, width: f32| {
        let space = engine.compute_layout(
            &Floats,
            root,
            Size {
                width: AvailableSpace::Definite(px(width)),
                height: AvailableSpace::MaxContent,
            },
            s(2.),
        );
        compute_layout_in(
            &mut engine.taffy,
            root,
            taffy_size(space, taffy_available),
            2.,
        );
    };

    lay_out(&mut engine, 50.);
    let bounds: Vec<Bounds<Pixels>> =
        parts.iter().map(|part| engine.layout_bounds(&Floats, *part, s(2.))).collect();
    assert_eq!(
        bounds,
        vec![
            rectangle(0., 0., 16.5, 10.),
            rectangle(16.5, 0., 17., 10.),
            rectangle(33.5, 0., 16.5, 10.),
        ]
    );

    lay_out(&mut engine, 60.);
    assert_eq!(engine.layout_bounds(&Floats, parts[2], s(2.)), rectangle(40., 0., 20., 10.));
    assert_eq!(engine.layout_bounds(&Floats, root, s(2.)), rectangle(0., 0., 60., 10.));
}

//! What a mapped style depends on.

use vstd::prelude::*;

use crate::geometry::{Edges, Size};
use crate::layout_style::{
    Dimension, LayoutStyle, LengthPercentage, LengthPercentageAuto, MaxTrackSizing,
    MinTrackSizing, TemplateComponent, TrackSizing,
};
use crate::number::{
    is_device_ceiling, is_device_length, is_device_stroke, is_non_negative, is_product,
    Arithmetic, Pixels, Scalar,
};
use crate::run::{are_leaf_metrics, LeafMetrics, MeasuredLayout};
use crate::style::{
    AbsoluteLength, DefiniteLength, GridTemplate, GridTemplateComponent, GridTrack, GridTrackMax,
    GridTrackMin, Length, Rems, Style,
};
use crate::to_taffy::{
    is_grid_template, is_snapped, is_snapped_stroke, is_template_component, is_track_sizing,
    ToTaffy,
};

verus! {

impl DefiniteLength {
    /// This length satisfies `p` if it is an absolute one.
    pub open spec fn absolutely(self, p: spec_fn(AbsoluteLength) -> bool) -> bool {
        self matches DefiniteLength::Absolute(length) ==> p(length)
    }
}

impl Length {
    /// This length satisfies `p` if it is an absolute one.
    pub open spec fn absolutely(self, p: spec_fn(AbsoluteLength) -> bool) -> bool {
        self matches Length::Definite(length) ==> length.absolutely(p)
    }
}

impl GridTrack {
    /// The fixed sizes of this track satisfy `p`.
    pub open spec fn absolutely(self, p: spec_fn(AbsoluteLength) -> bool) -> bool {
        match self {
            GridTrack::Px(value) => p(AbsoluteLength::Pixels(value)),
            GridTrack::MinMax { min, max } => {
                &&& min matches GridTrackMin::Px(value) ==> p(AbsoluteLength::Pixels(value))
                &&& max matches GridTrackMax::Px(value) ==> p(AbsoluteLength::Pixels(value))
            },
            _ => true,
        }
    }
}

impl GridTemplateComponent {
    /// The fixed sizes of these tracks satisfy `p`.
    pub open spec fn absolutely(self, p: spec_fn(AbsoluteLength) -> bool) -> bool {
        match self {
            GridTemplateComponent::Track(track) => track.absolutely(p),
            GridTemplateComponent::Repeat { count: _, tracks } => forall|i: int|
                0 <= i < tracks@.len() ==> (#[trigger] tracks@[i]).absolutely(p),
        }
    }
}

/// The fixed sizes of the tracks of a template, if there is one, satisfy `p`.
pub open spec fn template_absolutely(
    template: Option<GridTemplate>,
    p: spec_fn(AbsoluteLength) -> bool,
) -> bool {
    template matches Some(template) ==> forall|i: int|
        0 <= i < template.tracks@.len() ==> (#[trigger] template.tracks@[i]).absolutely(p)
}

/// The absolute lengths among the four sides satisfy `p`.
pub open spec fn edges_absolutely(
    edges: Edges<Length>,
    p: spec_fn(AbsoluteLength) -> bool,
) -> bool {
    &&& edges.top.absolutely(p)
    &&& edges.right.absolutely(p)
    &&& edges.bottom.absolutely(p)
    &&& edges.left.absolutely(p)
}

/// The absolute lengths among the two extents satisfy `p`.
pub open spec fn size_absolutely(size: Size<Length>, p: spec_fn(AbsoluteLength) -> bool) -> bool {
    &&& size.width.absolutely(p)
    &&& size.height.absolutely(p)
}

impl Style {
    /// Every absolute length of this style satisfies `p`.
    pub open spec fn every_absolute_length(self, p: spec_fn(AbsoluteLength) -> bool) -> bool {
        &&& p(self.scrollbar_width)
        &&& edges_absolutely(self.inset, p)
        &&& size_absolutely(self.size, p)
        &&& size_absolutely(self.min_size, p)
        &&& size_absolutely(self.max_size, p)
        &&& edges_absolutely(self.margin, p)
        &&& self.padding.top.absolutely(p)
        &&& self.padding.right.absolutely(p)
        &&& self.padding.bottom.absolutely(p)
        &&& self.padding.left.absolutely(p)
        &&& p(self.border_widths.top)
        &&& p(self.border_widths.right)
        &&& p(self.border_widths.bottom)
        &&& p(self.border_widths.left)
        &&& self.gap.width.absolutely(p)
        &&& self.gap.height.absolutely(p)
        &&& self.flex_basis.absolutely(p)
        &&& template_absolutely(self.grid_rows, p)
        &&& template_absolutely(self.grid_cols, p)
    }
}

/// The template parts are the same.
pub open spec fn same_component(a: TemplateComponent, b: TemplateComponent) -> bool {
    match a {
        TemplateComponent::Single(track) => b == TemplateComponent::Single(track),
        TemplateComponent::Repeat { count, tracks } => {
            &&& b is Repeat
            &&& b->count == count
            &&& b->tracks@ == tracks@
        },
    }
}

/// The templates have the same parts in the same order.
pub open spec fn same_template(a: Seq<TemplateComponent>, b: Seq<TemplateComponent>) -> bool {
    &&& a.len() == b.len()
    &&& forall|i: int| 0 <= i < a.len() ==> same_component(#[trigger] a[i], #[trigger] b[i])
}

/// The styles are the same to the layout algorithms.
pub open spec fn same_layout_style(a: LayoutStyle, b: LayoutStyle) -> bool {
    &&& a.display == b.display
    &&& a.overflow == b.overflow
    &&& a.scrollbar_width == b.scrollbar_width
    &&& a.position == b.position
    &&& a.inset == b.inset
    &&& a.size == b.size
    &&& a.min_size == b.min_size
    &&& a.max_size == b.max_size
    &&& a.aspect_ratio == b.aspect_ratio
    &&& a.margin == b.margin
    &&& a.padding == b.padding
    &&& a.border == b.border
    &&& a.align_items == b.align_items
    &&& a.align_self == b.align_self
    &&& a.align_content == b.align_content
    &&& a.justify_content == b.justify_content
    &&& a.gap == b.gap
    &&& a.flex_direction == b.flex_direction
    &&& a.flex_wrap == b.flex_wrap
    &&& a.flex_basis == b.flex_basis
    &&& a.flex_grow == b.flex_grow
    &&& a.flex_shrink == b.flex_shrink
    &&& same_template(a.grid_template_rows@, b.grid_template_rows@)
    &&& same_template(a.grid_template_columns@, b.grid_template_columns@)
    &&& a.grid_row == b.grid_row
    &&& a.grid_column == b.grid_column
}

/// A length has one form for layout, the same under both rem sizes and scale
/// factors, and so has a stroke of that width.
pub open spec fn maps_alike<A: Arithmetic>(
    arith: &A,
    length: AbsoluteLength,
    rem_size: Pixels,
    scale_factor: Scalar,
    other_rem_size: Pixels,
    other_scale_factor: Scalar,
) -> bool {
    &&& forall|r: Scalar, s: Scalar|
        #[trigger] is_snapped(arith, length, rem_size, scale_factor, r) && #[trigger] is_snapped(
            arith,
            length,
            other_rem_size,
            other_scale_factor,
            s,
        ) ==> r == s
    &&& forall|r, s|
        #[trigger] is_snapped_stroke(arith, length, rem_size, scale_factor, r)
            && #[trigger] is_snapped_stroke(
            arith,
            length,
            other_rem_size,
            other_scale_factor,
            s,
        ) ==> r == s
}

/// Tracks whose fixed sizes map alike have the same sizing functions.
proof fn lemma_tracks_map_alike<A: Arithmetic>(
    arith: &A,
    track: GridTrack,
    rem_size: Pixels,
    scale_factor: Scalar,
    other_rem_size: Pixels,
    other_scale_factor: Scalar,
)
    requires
        track.absolutely(
            |length: AbsoluteLength|
                maps_alike(
                    arith,
                    length,
                    rem_size,
                    scale_factor,
                    other_rem_size,
                    other_scale_factor,
                ),
        ),
    ensures
        forall|a, b|
            #[trigger] is_track_sizing(arith, track, scale_factor, a)
                && #[trigger] is_track_sizing(arith, track, other_scale_factor, b) ==> a == b,
{
    assert forall|value: Pixels, r: Scalar| #[trigger]
        is_device_length(arith, value.0, scale_factor, r) implies is_snapped(
        arith,
        AbsoluteLength::Pixels(value),
        rem_size,
        scale_factor,
        r,
    ) by {
        assert(AbsoluteLength::Pixels(value).is_in_pixels(arith, rem_size, value));
    }
    assert forall|value: Pixels, r: Scalar| #[trigger]
        is_device_length(arith, value.0, other_scale_factor, r) implies is_snapped(
        arith,
        AbsoluteLength::Pixels(value),
        other_rem_size,
        other_scale_factor,
        r,
    ) by {
        assert(AbsoluteLength::Pixels(value).is_in_pixels(arith, other_rem_size, value));
    }
}

/// Templates whose fixed sizes map alike are the same by sizing functions.
proof fn lemma_templates_map_alike<A: Arithmetic>(
    arith: &A,
    template: Option<GridTemplate>,
    rem_size: Pixels,
    scale_factor: Scalar,
    a: Seq<TemplateComponent>,
    other_rem_size: Pixels,
    other_scale_factor: Scalar,
    b: Seq<TemplateComponent>,
)
    requires
        template_absolutely(
            template,
            |length: AbsoluteLength|
                maps_alike(
                    arith,
                    length,
                    rem_size,
                    scale_factor,
                    other_rem_size,
                    other_scale_factor,
                ),
        ),
        is_grid_template(arith, template, scale_factor, a),
        is_grid_template(arith, template, other_scale_factor, b),
    ensures
        same_template(a, b),
{
    if let Some(template) = template {
        assert forall|i: int| 0 <= i < a.len() implies same_component(
            #[trigger] a[i],
            #[trigger] b[i],
        ) by {
            let component = template.tracks@[i];
            assert(is_template_component(arith, component, scale_factor, a[i]));
            assert(is_template_component(arith, component, other_scale_factor, b[i]));
            match component {
                GridTemplateComponent::Track(track) => {
                    lemma_tracks_map_alike(
                        arith,
                        track,
                        rem_size,
                        scale_factor,
                        other_rem_size,
                        other_scale_factor,
                    );
                },
                GridTemplateComponent::Repeat { count: _, tracks } => {
                    let one = a[i]->tracks@;
                    let other = b[i]->tracks@;
                    assert forall|k: int| 0 <= k < one.len() implies one[k] == other[k] by {
                        let track = tracks@[k];
                        lemma_tracks_map_alike(
                            arith,
                            track,
                            rem_size,
                            scale_factor,
                            other_rem_size,
                            other_scale_factor,
                        );
                        assert(is_track_sizing(arith, track, scale_factor, one[k]));
                        assert(is_track_sizing(arith, track, other_scale_factor, other[k]));
                    }
                    assert(one =~= other);
                },
            }
        }
    }
}

/// Nothing but its absolute lengths makes the form of a style depend on the rem
/// size or the scale factor: where those map alike, the styles are the same.
pub proof fn lemma_styles_map_alike<A: Arithmetic>(
    arith: &A,
    style: Style,
    rem_size: Pixels,
    scale_factor: Scalar,
    a: LayoutStyle,
    other_rem_size: Pixels,
    other_scale_factor: Scalar,
    b: LayoutStyle,
)
    requires
        style.every_absolute_length(
            |length: AbsoluteLength|
                maps_alike(
                    arith,
                    length,
                    rem_size,
                    scale_factor,
                    other_rem_size,
                    other_scale_factor,
                ),
        ),
        style.maps_to(arith, rem_size, scale_factor, a),
        style.maps_to(arith, other_rem_size, other_scale_factor, b),
    ensures
        same_layout_style(a, b),
{
    lemma_templates_map_alike(
        arith,
        style.grid_rows,
        rem_size,
        scale_factor,
        a.grid_template_rows@,
        other_rem_size,
        other_scale_factor,
        b.grid_template_rows@,
    );
    lemma_templates_map_alike(
        arith,
        style.grid_cols,
        rem_size,
        scale_factor,
        a.grid_template_columns@,
        other_rem_size,
        other_scale_factor,
        b.grid_template_columns@,
    );
}

/// A length of zero pixels or zero rems.
pub open spec fn is_zero_length(length: AbsoluteLength) -> bool {
    ||| length == AbsoluteLength::Pixels(Pixels(Scalar::zero()))
    ||| length == AbsoluteLength::Rems(Rems(Scalar::zero()))
}

/// Zero stays zero when it is multiplied by this rem size, and when it is rounded
/// at this scale factor.
pub open spec fn keeps_zero<A: Arithmetic>(
    arith: &A,
    rem_size: Pixels,
    scale_factor: Scalar,
) -> bool {
    &&& forall|r: Scalar| #[trigger]
        is_product(arith, Scalar::zero(), rem_size.0, r) ==> r == Scalar::zero()
    &&& forall|r: Scalar| #[trigger]
        is_device_length(arith, Scalar::zero(), scale_factor, r) ==> r == Scalar::zero()
    &&& forall|r: Scalar| #[trigger]
        is_device_stroke(arith, Scalar::zero(), scale_factor, r) ==> r == Scalar::zero()
}

/// Where all absolute lengths of a style are zero, neither the rem size nor the
/// scale factor matters: percentages, `auto`, calc expressions, flexible tracks,
/// flex factors and the aspect ratio are never multiplied by them.
pub proof fn lemma_styles_without_lengths_do_not_scale<A: Arithmetic>(
    arith: &A,
    style: Style,
    rem_size: Pixels,
    scale_factor: Scalar,
    a: LayoutStyle,
    other_rem_size: Pixels,
    other_scale_factor: Scalar,
    b: LayoutStyle,
)
    requires
        style.every_absolute_length(|length: AbsoluteLength| is_zero_length(length)),
        keeps_zero(arith, rem_size, scale_factor),
        keeps_zero(arith, other_rem_size, other_scale_factor),
        style.maps_to(arith, rem_size, scale_factor, a),
        style.maps_to(arith, other_rem_size, other_scale_factor, b),
    ensures
        same_layout_style(a, b),
{
    let zero = |length: AbsoluteLength| is_zero_length(length);
    let alike = |length: AbsoluteLength|
        maps_alike(arith, length, rem_size, scale_factor, other_rem_size, other_scale_factor);
    assert forall|length: AbsoluteLength| #[trigger] zero(length) implies alike(length) by {
        lemma_zero_maps_to_zero(arith, length, rem_size, scale_factor);
        lemma_zero_maps_to_zero(arith, length, other_rem_size, other_scale_factor);
    }
    lemma_weaker_of_every_length(style, zero, alike);
    lemma_styles_map_alike(
        arith,
        style,
        rem_size,
        scale_factor,
        a,
        other_rem_size,
        other_scale_factor,
        b,
    );
}

/// The form for layout of a zero length is zero.
proof fn lemma_zero_maps_to_zero<A: Arithmetic>(
    arith: &A,
    length: AbsoluteLength,
    rem_size: Pixels,
    scale_factor: Scalar,
)
    requires
        is_zero_length(length),
        keeps_zero(arith, rem_size, scale_factor),
    ensures
        forall|r: Scalar| #[trigger]
            is_snapped(arith, length, rem_size, scale_factor, r) ==> r == Scalar::zero(),
        forall|r| #[trigger]
            is_snapped_stroke(arith, length, rem_size, scale_factor, r) ==> r->Length_0
                == Scalar::zero(),
{
}

/// What satisfies one predicate satisfies a weaker one.
proof fn lemma_weaker_of_every_length(
    style: Style,
    p: spec_fn(AbsoluteLength) -> bool,
    q: spec_fn(AbsoluteLength) -> bool,
)
    requires
        style.every_absolute_length(p),
        forall|length: AbsoluteLength| #[trigger] p(length) ==> q(length),
    ensures
        style.every_absolute_length(q),
{
    lemma_weaker_of_every_track(style.grid_rows, p, q);
    lemma_weaker_of_every_track(style.grid_cols, p, q);
}

proof fn lemma_weaker_of_every_track(
    template: Option<GridTemplate>,
    p: spec_fn(AbsoluteLength) -> bool,
    q: spec_fn(AbsoluteLength) -> bool,
)
    requires
        template_absolutely(template, p),
        forall|length: AbsoluteLength| #[trigger] p(length) ==> q(length),
    ensures
        template_absolutely(template, q),
{
    if let Some(template) = template {
        assert forall|i: int| 0 <= i < template.tracks@.len() implies (
        #[trigger] template.tracks@[i]).absolutely(q) by {
            assert(template.tracks@[i].absolutely(p));
            if let GridTemplateComponent::Repeat { count: _, tracks } = template.tracks@[i] {
                assert forall|k: int| 0 <= k < tracks@.len() implies (
                #[trigger] tracks@[k]).absolutely(q) by {
                    assert(tracks@[k].absolutely(p));
                }
            }
        }
    }
}

/// The operations that map lengths give one result each.
pub open spec fn maps_lengths_one_way<A: Arithmetic>(arith: &A) -> bool {
    &&& forall|a: Scalar, b: Scalar, r: Scalar, s: Scalar|
        #[trigger] is_product(arith, a, b, r) && #[trigger] is_product(arith, a, b, s) ==> r == s
    &&& forall|a: Scalar, b: Scalar, r: Scalar, s: Scalar|
        #[trigger] is_device_length(arith, a, b, r) && #[trigger] is_device_length(arith, a, b, s)
            ==> r == s
    &&& forall|a: Scalar, b: Scalar, r: Scalar, s: Scalar|
        #[trigger] is_device_stroke(arith, a, b, r) && #[trigger] is_device_stroke(arith, a, b, s)
            ==> r == s
}

/// A style has one form for layout.
pub proof fn lemma_styles_map_one_way<A: Arithmetic>(
    arith: &A,
    style: Style,
    rem_size: Pixels,
    scale_factor: Scalar,
    a: LayoutStyle,
    b: LayoutStyle,
)
    requires
        maps_lengths_one_way(arith),
        style.maps_to(arith, rem_size, scale_factor, a),
        style.maps_to(arith, rem_size, scale_factor, b),
    ensures
        same_layout_style(a, b),
{
    let any = |length: AbsoluteLength| true;
    let alike = |length: AbsoluteLength|
        maps_alike(arith, length, rem_size, scale_factor, rem_size, scale_factor);
    lemma_weaker_of_every_length(style, any, alike);
    lemma_styles_map_alike(
        arith,
        style,
        rem_size,
        scale_factor,
        a,
        rem_size,
        scale_factor,
        b,
    );
}

/// At this scale factor, lengths within `range` come out as whole numbers of
/// device pixels, rounded either way, and strokes of a width other than zero as at
/// least one.
pub open spec fn rounds_to_whole_numbers<A: Arithmetic>(
    arith: &A,
    value: spec_fn(Scalar) -> Option<int>,
    range: spec_fn(Scalar) -> bool,
    scale_factor: Scalar,
) -> bool {
    &&& forall|a: Scalar, r: Scalar| #[trigger]
        is_device_length(arith, a, scale_factor, r) && range(a) ==> value(r) is Some
    &&& forall|a: Scalar, r: Scalar| #[trigger]
        is_device_ceiling(arith, a, scale_factor, r) && range(a) ==> value(r) is Some
    &&& forall|a: Scalar, r: Scalar| #[trigger]
        is_device_stroke(arith, a, scale_factor, r) && range(a) ==> value(r) is Some && (
        !a.is_zero() ==> value(r)->0 >= 1)
}

/// Every amount of logical pixels that `length` may stand for satisfies `p`.
pub open spec fn is_surely<A: Arithmetic>(
    arith: &A,
    length: AbsoluteLength,
    rem_size: Pixels,
    p: spec_fn(Scalar) -> bool,
) -> bool {
    forall|pixels: Pixels| #[trigger] length.is_in_pixels(arith, rem_size, pixels) ==> p(pixels.0)
}

impl LengthPercentage {
    /// This is a whole number of device pixels if it is a length.
    pub open spec fn is_whole(self, value: spec_fn(Scalar) -> Option<int>) -> bool {
        self matches LengthPercentage::Length(length) ==> value(length) is Some
    }
}

impl LengthPercentageAuto {
    /// This is a whole number of device pixels if it is a length.
    pub open spec fn is_whole(self, value: spec_fn(Scalar) -> Option<int>) -> bool {
        self matches LengthPercentageAuto::Length(length) ==> value(length) is Some
    }
}

impl Dimension {
    /// This is a whole number of device pixels if it is a length.
    pub open spec fn is_whole(self, value: spec_fn(Scalar) -> Option<int>) -> bool {
        self matches Dimension::Length(length) ==> value(length) is Some
    }
}

impl TrackSizing {
    /// The fixed sizes are whole numbers of device pixels.
    pub open spec fn is_whole(self, value: spec_fn(Scalar) -> Option<int>) -> bool {
        &&& self.min matches MinTrackSizing::Length(length) ==> value(length) is Some
        &&& self.max matches MaxTrackSizing::Length(length) ==> value(length) is Some
    }
}

impl TemplateComponent {
    /// The fixed sizes are whole numbers of device pixels.
    pub open spec fn is_whole(self, value: spec_fn(Scalar) -> Option<int>) -> bool {
        match self {
            TemplateComponent::Single(track) => track.is_whole(value),
            TemplateComponent::Repeat { count: _, tracks } => forall|i: int|
                0 <= i < tracks@.len() ==> (#[trigger] tracks@[i]).is_whole(value),
        }
    }
}

/// The fixed sizes of a template are whole numbers of device pixels.
pub open spec fn is_whole_template(
    template: Seq<TemplateComponent>,
    value: spec_fn(Scalar) -> Option<int>,
) -> bool {
    forall|i: int| 0 <= i < template.len() ==> (#[trigger] template[i]).is_whole(value)
}

impl LayoutStyle {
    /// Every length of this style is a whole number of device pixels.
    pub open spec fn is_whole(self, value: spec_fn(Scalar) -> Option<int>) -> bool {
        &&& value(self.scrollbar_width) is Some
        &&& self.inset.top.is_whole(value)
        &&& self.inset.right.is_whole(value)
        &&& self.inset.bottom.is_whole(value)
        &&& self.inset.left.is_whole(value)
        &&& self.size.width.is_whole(value)
        &&& self.size.height.is_whole(value)
        &&& self.min_size.width.is_whole(value)
        &&& self.min_size.height.is_whole(value)
        &&& self.max_size.width.is_whole(value)
        &&& self.max_size.height.is_whole(value)
        &&& self.margin.top.is_whole(value)
        &&& self.margin.right.is_whole(value)
        &&& self.margin.bottom.is_whole(value)
        &&& self.margin.left.is_whole(value)
        &&& self.padding.top.is_whole(value)
        &&& self.padding.right.is_whole(value)
        &&& self.padding.bottom.is_whole(value)
        &&& self.padding.left.is_whole(value)
        &&& self.border.top.is_whole(value)
        &&& self.border.right.is_whole(value)
        &&& self.border.bottom.is_whole(value)
        &&& self.border.left.is_whole(value)
        &&& self.gap.width.is_whole(value)
        &&& self.gap.height.is_whole(value)
        &&& self.flex_basis.is_whole(value)
        &&& is_whole_template(self.grid_template_rows@, value)
        &&& is_whole_template(self.grid_template_columns@, value)
    }
}

/// A side of a border shows: it is at least one device pixel thick if the
/// authored width is not zero.
pub open spec fn shows<A: Arithmetic>(
    arith: &A,
    value: spec_fn(Scalar) -> Option<int>,
    width: AbsoluteLength,
    rem_size: Pixels,
    side: LengthPercentage,
) -> bool {
    is_surely(arith, width, rem_size, |a: Scalar| !a.is_zero()) ==> {
        &&& side is Length
        &&& value(side->Length_0) is Some
        &&& value(side->Length_0)->0 >= 1
    }
}

/// A template whose fixed sizes are within range has whole sizing functions.
proof fn lemma_templates_are_whole<A: Arithmetic>(
    arith: &A,
    value: spec_fn(Scalar) -> Option<int>,
    range: spec_fn(Scalar) -> bool,
    template: Option<GridTemplate>,
    rem_size: Pixels,
    scale_factor: Scalar,
    r: Seq<TemplateComponent>,
)
    requires
        rounds_to_whole_numbers(arith, value, range, scale_factor),
        template_absolutely(
            template,
            |length: AbsoluteLength| is_surely(arith, length, rem_size, range),
        ),
        is_grid_template(arith, template, scale_factor, r),
    ensures
        is_whole_template(r, value),
{
    let p = |length: AbsoluteLength| is_surely(arith, length, rem_size, range);
    assert forall|pixels: Pixels| #[trigger] p(AbsoluteLength::Pixels(pixels)) implies range(
        pixels.0,
    ) by {
        assert(AbsoluteLength::Pixels(pixels).is_in_pixels(arith, rem_size, pixels));
    }
    if let Some(template) = template {
        assert forall|i: int| 0 <= i < r.len() implies (#[trigger] r[i]).is_whole(value) by {
            let component = template.tracks@[i];
            assert(component.absolutely(p));
            assert(is_template_component(arith, component, scale_factor, r[i]));
            if let GridTemplateComponent::Repeat { count: _, tracks } = component {
                let sizings = r[i]->tracks@;
                assert forall|k: int| 0 <= k < sizings.len() implies (
                #[trigger] sizings[k]).is_whole(value) by {
                    assert(tracks@[k].absolutely(p));
                    assert(is_track_sizing(arith, tracks@[k], scale_factor, sizings[k]));
                }
            }
        }
    }
}

/// Before layout, every absolute length of a style becomes a whole number of
/// device pixels, and no visible border vanishes.
pub proof fn lemma_styles_are_whole<A: Arithmetic>(
    arith: &A,
    value: spec_fn(Scalar) -> Option<int>,
    range: spec_fn(Scalar) -> bool,
    style: Style,
    rem_size: Pixels,
    scale_factor: Scalar,
    r: LayoutStyle,
)
    requires
        rounds_to_whole_numbers(arith, value, range, scale_factor),
        style.every_absolute_length(
            |length: AbsoluteLength| is_surely(arith, length, rem_size, range),
        ),
        style.maps_to(arith, rem_size, scale_factor, r),
    ensures
        r.is_whole(value),
        shows(arith, value, style.border_widths.top, rem_size, r.border.top),
        shows(arith, value, style.border_widths.right, rem_size, r.border.right),
        shows(arith, value, style.border_widths.bottom, rem_size, r.border.bottom),
        shows(arith, value, style.border_widths.left, rem_size, r.border.left),
{
    lemma_templates_are_whole(
        arith,
        value,
        range,
        style.grid_rows,
        rem_size,
        scale_factor,
        r.grid_template_rows@,
    );
    lemma_templates_are_whole(
        arith,
        value,
        range,
        style.grid_cols,
        rem_size,
        scale_factor,
        r.grid_template_columns@,
    );
}

/// What the layout algorithms learn of a measured leaf is whole numbers of device
/// pixels: its size and, where there is one, its baseline.
pub proof fn lemma_leaf_metrics_are_whole<A: Arithmetic>(
    arith: &A,
    value: spec_fn(Scalar) -> Option<int>,
    range: spec_fn(Scalar) -> bool,
    measured: MeasuredLayout,
    scale_factor: Scalar,
    r: LeafMetrics,
)
    requires
        rounds_to_whole_numbers(arith, value, range, scale_factor),
        forall|length: Scalar| #[trigger]
            is_non_negative(arith, measured.size.width.0, length) ==> range(length),
        forall|length: Scalar| #[trigger]
            is_non_negative(arith, measured.size.height.0, length) ==> range(length),
        measured.first_baseline matches Some(baseline) ==> range(baseline.0),
        are_leaf_metrics(arith, measured, scale_factor, r),
    ensures
        value(r.size.width) is Some,
        value(r.size.height) is Some,
        r.first_baseline is Some <==> measured.first_baseline is Some,
        r.first_baseline matches Some(baseline) ==> value(baseline) is Some,
{
}

} // verus!

//! What an authored style becomes for layout: nothing that was authored is lost
//! or confused, and lengths are as long as they were authored.

use vstd::prelude::*;

use crate::geometry::{Edges, Size};
use crate::layout_style::{
    Dimension, LayoutStyle, LengthPercentage, LengthPercentageAuto, MaxTrackSizing,
    MinTrackSizing, TemplateComponent, TrackSizing,
};
use crate::number::{Arithmetic, CalcLength, Pixels, Scalar};
use crate::reading::{is_faithful, is_nearest_whole, is_stroke_thickness, Reading};
use crate::style::{
    calcs_among, AbsoluteLength, DefiniteLength, GridLocation, GridTemplate,
    GridTemplateComponent, GridTrack, GridTrackMax, GridTrackMin, Length, Style,
};
use crate::to_taffy::{
    are_snapped_strokes, grid_column, grid_row, is_grid_template, is_snapped, is_snapped_stroke,
    is_template_component, is_track_sizing, ToTaffy,
};

verus! {

/// How many logical pixels a length is: those that were authored, or as many
/// times the rem size as rems were authored.
pub open spec fn logical_length(q: Reading, length: AbsoluteLength, rem_size: Pixels) -> real {
    match length {
        AbsoluteLength::Pixels(pixels) => q.of(pixels.0),
        AbsoluteLength::Rems(rems) => q.of(rems.0) * q.of(rem_size.0),
    }
}

/// Scalars stand for all numbers that bringing a length into device pixels takes.
pub open spec fn is_exact_length(
    q: Reading,
    length: AbsoluteLength,
    rem_size: Pixels,
    scale_factor: Scalar,
) -> bool {
    &&& match length {
        AbsoluteLength::Pixels(pixels) => q.has(pixels.0),
        AbsoluteLength::Rems(rems) => q.has(rems.0) && q.has(rem_size.0) && (q.fits)(
            q.of(rems.0) * q.of(rem_size.0),
        ),
    }
    &&& q.has(scale_factor)
    &&& (q.fits)(logical_length(q, length, rem_size) * q.of(scale_factor))
}

/// `r` is the integer of device pixels that is nearest to a length.
pub open spec fn measures(
    q: Reading,
    length: AbsoluteLength,
    rem_size: Pixels,
    scale_factor: Scalar,
    r: Scalar,
) -> bool {
    is_exact_length(q, length, rem_size, scale_factor) ==> q.has(r) && is_nearest_whole(
        logical_length(q, length, rem_size) * q.of(scale_factor),
        q.of(r),
    )
}

/// `r` is a border side of this width: as many device pixels as are nearest to
/// it, none for no width, and otherwise at least one.
pub open spec fn strokes(
    q: Reading,
    width: AbsoluteLength,
    rem_size: Pixels,
    scale_factor: Scalar,
    r: LengthPercentage,
) -> bool {
    &&& r is Length
    &&& is_exact_length(q, width, rem_size, scale_factor) ==> q.has(r->Length_0)
        && is_stroke_thickness(
        logical_length(q, width, rem_size),
        logical_length(q, width, rem_size) * q.of(scale_factor),
        q.of(r->Length_0),
    )
}

/// `r` is as long as a definite length; a share stays the share it was.
pub open spec fn extends(
    q: Reading,
    length: DefiniteLength,
    rem_size: Pixels,
    scale_factor: Scalar,
    r: LengthPercentage,
) -> bool {
    match r {
        LengthPercentage::Length(x) => {
            &&& length is Absolute
            &&& measures(q, length->Absolute_0, rem_size, scale_factor, x)
        },
        LengthPercentage::Percent(share) => length == DefiniteLength::Fraction(share),
    }
}

/// `r` is as long as a length; what is no absolute length stays what it was.
pub open spec fn offsets(
    q: Reading,
    length: Length,
    rem_size: Pixels,
    scale_factor: Scalar,
    r: LengthPercentageAuto,
) -> bool {
    match r {
        LengthPercentageAuto::Length(x) => {
            &&& length is Definite
            &&& length->Definite_0 is Absolute
            &&& measures(q, length->Definite_0->Absolute_0, rem_size, scale_factor, x)
        },
        LengthPercentageAuto::Percent(share) => length == Length::Definite(
            DefiniteLength::Fraction(share),
        ),
        LengthPercentageAuto::Calc(handle) => length == Length::Calc(CalcLength { handle }),
        LengthPercentageAuto::Auto => length == Length::Auto,
    }
}

/// `r` is as long as a length; what is no absolute length stays what it was.
pub open spec fn sizes(
    q: Reading,
    length: Length,
    rem_size: Pixels,
    scale_factor: Scalar,
    r: Dimension,
) -> bool {
    match r {
        Dimension::Length(x) => {
            &&& length is Definite
            &&& length->Definite_0 is Absolute
            &&& measures(q, length->Definite_0->Absolute_0, rem_size, scale_factor, x)
        },
        Dimension::Percent(share) => length == Length::Definite(DefiniteLength::Fraction(share)),
        Dimension::Calc(handle) => length == Length::Calc(CalcLength { handle }),
        Dimension::Auto => length == Length::Auto,
    }
}

/// Each side is as long as authored.
pub open spec fn edges_offset(
    q: Reading,
    edges: Edges<Length>,
    rem_size: Pixels,
    scale_factor: Scalar,
    r: Edges<LengthPercentageAuto>,
) -> bool {
    &&& offsets(q, edges.top, rem_size, scale_factor, r.top)
    &&& offsets(q, edges.right, rem_size, scale_factor, r.right)
    &&& offsets(q, edges.bottom, rem_size, scale_factor, r.bottom)
    &&& offsets(q, edges.left, rem_size, scale_factor, r.left)
}

/// Both extents are as long as authored.
pub open spec fn both_size(
    q: Reading,
    size: Size<Length>,
    rem_size: Pixels,
    scale_factor: Scalar,
    r: Size<Dimension>,
) -> bool {
    &&& sizes(q, size.width, rem_size, scale_factor, r.width)
    &&& sizes(q, size.height, rem_size, scale_factor, r.height)
}

/// A length is the nearest integer of device pixels.
pub proof fn lemma_lengths_are_nearest<A: Arithmetic>(
    arith: &A,
    q: Reading,
    length: AbsoluteLength,
    rem_size: Pixels,
    scale_factor: Scalar,
    r: Scalar,
)
    requires
        is_faithful(arith, q),
        is_snapped(arith, length, rem_size, scale_factor, r),
    ensures
        measures(q, length, rem_size, scale_factor, r),
{
    let pixels = choose|pixels: Pixels|
        {
            &&& #[trigger] length.is_in_pixels(arith, rem_size, pixels)
            &&& call_ensures(A::round_to_device_pixel, (arith, pixels.0, scale_factor), r)
        };
    lemma_lengths_are_as_authored(arith, q, length, rem_size, pixels);
    assert(call_ensures(A::round_to_device_pixel, (arith, pixels.0, scale_factor), r));
}

/// A length in logical pixels is as many as were authored, rems as many times the
/// rem size.
pub proof fn lemma_lengths_are_as_authored<A: Arithmetic>(
    arith: &A,
    q: Reading,
    length: AbsoluteLength,
    rem_size: Pixels,
    r: Pixels,
)
    requires
        is_faithful(arith, q),
        length.is_in_pixels(arith, rem_size, r),
    ensures
        length matches AbsoluteLength::Pixels(pixels) ==> r == pixels,
        length matches AbsoluteLength::Rems(rems) ==> (q.has(rems.0) && q.has(rem_size.0) && (
        q.fits)(q.of(rems.0) * q.of(rem_size.0)) ==> q.reads(
            r.0,
            q.of(rems.0) * q.of(rem_size.0),
        )),
{
}

/// A border side is as thick as authored, and shows if it has any width.
pub proof fn lemma_strokes_are_as_authored<A: Arithmetic>(
    arith: &A,
    q: Reading,
    width: AbsoluteLength,
    rem_size: Pixels,
    scale_factor: Scalar,
    r: LengthPercentage,
)
    requires
        is_faithful(arith, q),
        is_snapped_stroke(arith, width, rem_size, scale_factor, r),
    ensures
        strokes(q, width, rem_size, scale_factor, r),
{
    let pixels = choose|pixels: Pixels|
        {
            &&& #[trigger] width.is_in_pixels(arith, rem_size, pixels)
            &&& call_ensures(
                A::round_stroke_to_device_pixel,
                (arith, pixels.0, scale_factor),
                r->Length_0,
            )
        };
    lemma_lengths_are_as_authored(arith, q, width, rem_size, pixels);
    assert(call_ensures(
        A::round_stroke_to_device_pixel,
        (arith, pixels.0, scale_factor),
        r->Length_0,
    ));
}

/// In whatever form layout reads an absolute length, it is a length and the
/// nearest integer of device pixels.
pub proof fn lemma_lengths_are_nearest_in_every_form<A: Arithmetic>(
    arith: &A,
    q: Reading,
    length: AbsoluteLength,
    rem_size: Pixels,
    scale_factor: Scalar,
    bare: Scalar,
    extent: LengthPercentage,
    offset: LengthPercentageAuto,
    dimension: Dimension,
)
    requires
        is_faithful(arith, q),
        <AbsoluteLength as ToTaffy<A, Scalar>>::maps_to(
            &length,
            arith,
            rem_size,
            scale_factor,
            bare,
        ),
        <AbsoluteLength as ToTaffy<A, LengthPercentage>>::maps_to(
            &length,
            arith,
            rem_size,
            scale_factor,
            extent,
        ),
        <AbsoluteLength as ToTaffy<A, LengthPercentageAuto>>::maps_to(
            &length,
            arith,
            rem_size,
            scale_factor,
            offset,
        ),
        <AbsoluteLength as ToTaffy<A, Dimension>>::maps_to(
            &length,
            arith,
            rem_size,
            scale_factor,
            dimension,
        ),
    ensures
        measures(q, length, rem_size, scale_factor, bare),
        extends(q, DefiniteLength::Absolute(length), rem_size, scale_factor, extent),
        offsets(
            q,
            Length::Definite(DefiniteLength::Absolute(length)),
            rem_size,
            scale_factor,
            offset,
        ),
        sizes(
            q,
            Length::Definite(DefiniteLength::Absolute(length)),
            rem_size,
            scale_factor,
            dimension,
        ),
{
    lemma_lengths_are_nearest(arith, q, length, rem_size, scale_factor, bare);
    lemma_lengths_are_nearest(arith, q, length, rem_size, scale_factor, extent->Length_0);
    lemma_lengths_are_nearest(arith, q, length, rem_size, scale_factor, offset->Length_0);
    lemma_lengths_are_nearest(arith, q, length, rem_size, scale_factor, dimension->Length_0);
}

/// Each border side is that of its own width.
pub proof fn lemma_borders_are_as_authored<A: Arithmetic>(
    arith: &A,
    q: Reading,
    widths: Edges<AbsoluteLength>,
    rem_size: Pixels,
    scale_factor: Scalar,
    r: Edges<LengthPercentage>,
)
    requires
        is_faithful(arith, q),
        are_snapped_strokes(arith, widths, rem_size, scale_factor, r),
    ensures
        strokes(q, widths.top, rem_size, scale_factor, r.top),
        strokes(q, widths.right, rem_size, scale_factor, r.right),
        strokes(q, widths.bottom, rem_size, scale_factor, r.bottom),
        strokes(q, widths.left, rem_size, scale_factor, r.left),
{
    lemma_strokes_are_as_authored(arith, q, widths.top, rem_size, scale_factor, r.top);
    lemma_strokes_are_as_authored(arith, q, widths.right, rem_size, scale_factor, r.right);
    lemma_strokes_are_as_authored(arith, q, widths.bottom, rem_size, scale_factor, r.bottom);
    lemma_strokes_are_as_authored(arith, q, widths.left, rem_size, scale_factor, r.left);
}

/// A definite length is as long as authored, and a share stays a share.
pub proof fn lemma_extent_is_as_authored<A: Arithmetic>(
    arith: &A,
    q: Reading,
    length: DefiniteLength,
    rem_size: Pixels,
    scale_factor: Scalar,
    r: LengthPercentage,
)
    requires
        is_faithful(arith, q),
        length.maps_to(arith, rem_size, scale_factor, r),
    ensures
        extends(q, length, rem_size, scale_factor, r),
{
    if let DefiniteLength::Absolute(absolute) = length {
        lemma_lengths_are_nearest(arith, q, absolute, rem_size, scale_factor, r->Length_0);
    }
}

/// A length is as long as authored; what is no absolute length stays what it was.
pub proof fn lemma_offset_is_as_authored<A: Arithmetic>(
    arith: &A,
    q: Reading,
    length: Length,
    rem_size: Pixels,
    scale_factor: Scalar,
    r: LengthPercentageAuto,
)
    requires
        is_faithful(arith, q),
        length.maps_to(arith, rem_size, scale_factor, r),
    ensures
        offsets(q, length, rem_size, scale_factor, r),
{
    if let Length::Definite(DefiniteLength::Absolute(absolute)) = length {
        lemma_lengths_are_nearest(arith, q, absolute, rem_size, scale_factor, r->Length_0);
    }
}

proof fn lemma_offsets_are_as_authored<A: Arithmetic>(
    arith: &A,
    q: Reading,
    edges: Edges<Length>,
    rem_size: Pixels,
    scale_factor: Scalar,
    r: Edges<LengthPercentageAuto>,
)
    requires
        is_faithful(arith, q),
        edges.maps_to(arith, rem_size, scale_factor, r),
    ensures
        edges_offset(q, edges, rem_size, scale_factor, r),
{
    lemma_offset_is_as_authored(arith, q, edges.top, rem_size, scale_factor, r.top);
    lemma_offset_is_as_authored(arith, q, edges.right, rem_size, scale_factor, r.right);
    lemma_offset_is_as_authored(arith, q, edges.bottom, rem_size, scale_factor, r.bottom);
    lemma_offset_is_as_authored(arith, q, edges.left, rem_size, scale_factor, r.left);
}

/// A dimension is as long as authored; what is no absolute length stays what it
/// was.
pub proof fn lemma_dimension_is_as_authored<A: Arithmetic>(
    arith: &A,
    q: Reading,
    length: Length,
    rem_size: Pixels,
    scale_factor: Scalar,
    r: Dimension,
)
    requires
        is_faithful(arith, q),
        length.maps_to(arith, rem_size, scale_factor, r),
    ensures
        sizes(q, length, rem_size, scale_factor, r),
{
    if let Length::Definite(DefiniteLength::Absolute(absolute)) = length {
        lemma_lengths_are_nearest(arith, q, absolute, rem_size, scale_factor, r->Length_0);
    }
}

proof fn lemma_dimensions_are_as_authored<A: Arithmetic>(
    arith: &A,
    q: Reading,
    size: Size<Length>,
    rem_size: Pixels,
    scale_factor: Scalar,
    r: Size<Dimension>,
)
    requires
        is_faithful(arith, q),
        size.maps_to(arith, rem_size, scale_factor, r),
    ensures
        both_size(q, size, rem_size, scale_factor, r),
{
    lemma_dimension_is_as_authored(arith, q, size.width, rem_size, scale_factor, r.width);
    lemma_dimension_is_as_authored(arith, q, size.height, rem_size, scale_factor, r.height);
}

/// Every length of a style is, on its own side or axis, the integer of device
/// pixels that is nearest to what was authored there; percentages, calc
/// expressions and `auto` stay what they were.
pub proof fn lemma_styles_are_as_long_as_authored<A: Arithmetic>(
    arith: &A,
    q: Reading,
    style: Style,
    rem_size: Pixels,
    scale_factor: Scalar,
    r: LayoutStyle,
)
    requires
        is_faithful(arith, q),
        style.maps_to(arith, rem_size, scale_factor, r),
    ensures
        measures(q, style.scrollbar_width, rem_size, scale_factor, r.scrollbar_width),
        edges_offset(q, style.inset, rem_size, scale_factor, r.inset),
        both_size(q, style.size, rem_size, scale_factor, r.size),
        both_size(q, style.min_size, rem_size, scale_factor, r.min_size),
        both_size(q, style.max_size, rem_size, scale_factor, r.max_size),
        edges_offset(q, style.margin, rem_size, scale_factor, r.margin),
        extends(q, style.padding.top, rem_size, scale_factor, r.padding.top),
        extends(q, style.padding.right, rem_size, scale_factor, r.padding.right),
        extends(q, style.padding.bottom, rem_size, scale_factor, r.padding.bottom),
        extends(q, style.padding.left, rem_size, scale_factor, r.padding.left),
        strokes(q, style.border_widths.top, rem_size, scale_factor, r.border.top),
        strokes(q, style.border_widths.right, rem_size, scale_factor, r.border.right),
        strokes(q, style.border_widths.bottom, rem_size, scale_factor, r.border.bottom),
        strokes(q, style.border_widths.left, rem_size, scale_factor, r.border.left),
        extends(q, style.gap.width, rem_size, scale_factor, r.gap.width),
        extends(q, style.gap.height, rem_size, scale_factor, r.gap.height),
        sizes(q, style.flex_basis, rem_size, scale_factor, r.flex_basis),
{
    lemma_lengths_are_nearest(
        arith,
        q,
        style.scrollbar_width,
        rem_size,
        scale_factor,
        r.scrollbar_width,
    );
    lemma_offsets_are_as_authored(arith, q, style.inset, rem_size, scale_factor, r.inset);
    lemma_dimensions_are_as_authored(arith, q, style.size, rem_size, scale_factor, r.size);
    lemma_dimensions_are_as_authored(arith, q, style.min_size, rem_size, scale_factor, r.min_size);
    lemma_dimensions_are_as_authored(arith, q, style.max_size, rem_size, scale_factor, r.max_size);
    lemma_offsets_are_as_authored(arith, q, style.margin, rem_size, scale_factor, r.margin);
    let (padding, mapped) = (style.padding, r.padding);
    lemma_extent_is_as_authored(arith, q, padding.top, rem_size, scale_factor, mapped.top);
    lemma_extent_is_as_authored(arith, q, padding.right, rem_size, scale_factor, mapped.right);
    lemma_extent_is_as_authored(arith, q, padding.bottom, rem_size, scale_factor, mapped.bottom);
    lemma_extent_is_as_authored(arith, q, padding.left, rem_size, scale_factor, mapped.left);
    lemma_borders_are_as_authored(
        arith,
        q,
        style.border_widths,
        rem_size,
        scale_factor,
        r.border,
    );
    lemma_extent_is_as_authored(arith, q, style.gap.width, rem_size, scale_factor, r.gap.width);
    lemma_extent_is_as_authored(arith, q, style.gap.height, rem_size, scale_factor, r.gap.height);
    lemma_dimension_is_as_authored(
        arith,
        q,
        style.flex_basis,
        rem_size,
        scale_factor,
        r.flex_basis,
    );
}

/// What is no length is the same in two styles for layout exactly when it was
/// authored the same: nothing of it is lost, confused or made up.
pub proof fn lemma_keywords_are_kept<A: Arithmetic>(
    arith: &A,
    style: Style,
    rem_size: Pixels,
    scale_factor: Scalar,
    r: LayoutStyle,
    other: Style,
    other_rem_size: Pixels,
    other_scale_factor: Scalar,
    s: LayoutStyle,
)
    requires
        style.maps_to(arith, rem_size, scale_factor, r),
        other.maps_to(arith, other_rem_size, other_scale_factor, s),
    ensures
        r.display == s.display <==> style.display == other.display,
        r.overflow.x == s.overflow.x <==> style.overflow.x == other.overflow.x,
        r.overflow.y == s.overflow.y <==> style.overflow.y == other.overflow.y,
        r.position == s.position <==> style.position == other.position,
        r.aspect_ratio == s.aspect_ratio <==> style.aspect_ratio == other.aspect_ratio,
        r.align_items == s.align_items <==> style.align_items == other.align_items,
        r.align_self == s.align_self <==> style.align_self == other.align_self,
        r.align_content == s.align_content <==> style.align_content == other.align_content,
        r.justify_content == s.justify_content <==> style.justify_content == other.justify_content,
        r.flex_direction == s.flex_direction <==> style.flex_direction == other.flex_direction,
        r.flex_wrap == s.flex_wrap <==> style.flex_wrap == other.flex_wrap,
        r.flex_grow == s.flex_grow <==> style.flex_grow == other.flex_grow,
        r.flex_shrink == s.flex_shrink <==> style.flex_shrink == other.flex_shrink,
        r.display == style.display,
        r.overflow == style.overflow,
        r.position == style.position,
        r.aspect_ratio == style.aspect_ratio,
        r.align_items == style.align_items,
        r.align_self == style.align_self,
        r.align_content == style.align_content,
        r.justify_content == style.justify_content,
        r.flex_direction == style.flex_direction,
        r.flex_wrap == style.flex_wrap,
        r.flex_grow == style.flex_grow,
        r.flex_shrink == style.flex_shrink,
{
}

/// Grid placement is kept without loss: locations with the same rows and columns
/// for layout are the same, and an item without a location is placed where none
/// was asked for.
pub proof fn lemma_grid_placement_is_kept<A: Arithmetic>(
    arith: &A,
    style: Style,
    rem_size: Pixels,
    scale_factor: Scalar,
    r: LayoutStyle,
    other: Style,
    other_rem_size: Pixels,
    other_scale_factor: Scalar,
    s: LayoutStyle,
)
    requires
        style.maps_to(arith, rem_size, scale_factor, r),
        other.maps_to(arith, other_rem_size, other_scale_factor, s),
    ensures
        style.grid_location matches Some(a) ==> (other.grid_location matches Some(b) ==> {
            &&& r.grid_row.start == s.grid_row.start <==> a.row.start == b.row.start
            &&& r.grid_row.end == s.grid_row.end <==> a.row.end == b.row.end
            &&& r.grid_column.start == s.grid_column.start <==> a.column.start == b.column.start
            &&& r.grid_column.end == s.grid_column.end <==> a.column.end == b.column.end
        }),
        style.grid_location matches Some(a) ==> {
            &&& r.grid_row.start == a.row.start
            &&& r.grid_row.end == a.row.end
            &&& r.grid_column.start == a.column.start
            &&& r.grid_column.end == a.column.end
        },
        style.grid_location is None ==> {
            &&& r.grid_row.start is Auto
            &&& r.grid_row.end is Auto
            &&& r.grid_column.start is Auto
            &&& r.grid_column.end is Auto
        },
{
}

/// Rows and columns are placed alike: exchanging those of a location exchanges
/// those for layout.
pub proof fn lemma_grid_placement_treats_axes_alike(location: GridLocation)
    ensures
        ({
            let exchanged = GridLocation { row: location.column, column: location.row };
            &&& grid_row(Some(exchanged)) == grid_column(Some(location))
            &&& grid_column(Some(exchanged)) == grid_row(Some(location))
        }),
        grid_row(None) == grid_column(None),
{
}

/// `r` sizes a track with this lower bound: a fixed size is the nearest integer
/// of device pixels, and a size that the items decide stays that.
pub open spec fn bounds_below(
    q: Reading,
    track: GridTrackMin,
    scale_factor: Scalar,
    r: MinTrackSizing,
) -> bool {
    match r {
        MinTrackSizing::Length(x) => {
            &&& track is Px
            &&& measures(
                q,
                AbsoluteLength::Pixels(track->Px_0),
                Pixels(Scalar::zero()),
                scale_factor,
                x,
            )
        },
        MinTrackSizing::Auto => track == GridTrackMin::Auto,
        MinTrackSizing::MinContent => track == GridTrackMin::MinContent,
        MinTrackSizing::MaxContent => track == GridTrackMin::MaxContent,
    }
}

/// `r` sizes a track with this upper bound: a fixed size is the nearest integer
/// of device pixels, and a size that the items or the free space decide stays
/// that.
pub open spec fn bounds_above(
    q: Reading,
    track: GridTrackMax,
    scale_factor: Scalar,
    r: MaxTrackSizing,
) -> bool {
    match r {
        MaxTrackSizing::Length(x) => {
            &&& track is Px
            &&& measures(
                q,
                AbsoluteLength::Pixels(track->Px_0),
                Pixels(Scalar::zero()),
                scale_factor,
                x,
            )
        },
        MaxTrackSizing::Fr(share) => track == GridTrackMax::Fr(share),
        MaxTrackSizing::Auto => track == GridTrackMax::Auto,
        MaxTrackSizing::MinContent => track == GridTrackMax::MinContent,
        MaxTrackSizing::MaxContent => track == GridTrackMax::MaxContent,
    }
}

/// The bounds between which a track is sized: a track with one size has it as
/// both bounds, and a flexible one is at least as large as its items require.
pub open spec fn track_bounds(track: GridTrack) -> (GridTrackMin, GridTrackMax) {
    match track {
        GridTrack::Px(value) => (GridTrackMin::Px(value), GridTrackMax::Px(value)),
        GridTrack::Fr(share) => (GridTrackMin::Auto, GridTrackMax::Fr(share)),
        GridTrack::Auto => (GridTrackMin::Auto, GridTrackMax::Auto),
        GridTrack::MinContent => (GridTrackMin::MinContent, GridTrackMax::MinContent),
        GridTrack::MaxContent => (GridTrackMin::MaxContent, GridTrackMax::MaxContent),
        GridTrack::MinMax { min, max } => (min, max),
    }
}

/// A track is sized between its bounds.
pub proof fn lemma_tracks_are_as_authored<A: Arithmetic>(
    arith: &A,
    q: Reading,
    track: GridTrack,
    scale_factor: Scalar,
    r: TrackSizing,
)
    requires
        is_faithful(arith, q),
        is_track_sizing(arith, track, scale_factor, r),
    ensures
        bounds_below(q, track_bounds(track).0, scale_factor, r.min),
        bounds_above(q, track_bounds(track).1, scale_factor, r.max),
        track is Px ==> r.max == MaxTrackSizing::Length(r.min->Length_0),
{
}

/// A track is sized as if its bounds had been authored one by one.
pub proof fn lemma_tracks_are_their_bounds<A: Arithmetic>(
    arith: &A,
    track: GridTrack,
    scale_factor: Scalar,
    r: TrackSizing,
)
    requires
        is_track_sizing(arith, track, scale_factor, r),
    ensures
        is_track_sizing(
            arith,
            GridTrack::MinMax { min: track_bounds(track).0, max: track_bounds(track).1 },
            scale_factor,
            r,
        ),
{
}

/// The number of tracks that a part of a template makes.
pub open spec fn authored_tracks(component: GridTemplateComponent) -> nat {
    match component {
        GridTemplateComponent::Track(_) => 1,
        GridTemplateComponent::Repeat { count, tracks } => count as nat * tracks@.len(),
    }
}

/// The number of tracks that a part of a template for layout makes.
pub open spec fn mapped_tracks(component: TemplateComponent) -> nat {
    match component {
        TemplateComponent::Single(_) => 1,
        TemplateComponent::Repeat { count, tracks } => count as nat * tracks@.len(),
    }
}

/// The track that stands at this place in the list of a part of a template.
pub open spec fn authored_track(component: GridTemplateComponent, k: int) -> GridTrack {
    match component {
        GridTemplateComponent::Track(track) => track,
        GridTemplateComponent::Repeat { count: _, tracks } => tracks@[k],
    }
}

/// The track that stands at this place in the list of a part of a template for
/// layout.
pub open spec fn mapped_track(component: TemplateComponent, k: int) -> TrackSizing {
    match component {
        TemplateComponent::Single(track) => track,
        TemplateComponent::Repeat { count: _, tracks } => tracks@[k],
    }
}

/// The length of the list of a part of a template.
pub open spec fn listed_tracks(component: GridTemplateComponent) -> nat {
    match component {
        GridTemplateComponent::Track(_) => 1,
        GridTemplateComponent::Repeat { count: _, tracks } => tracks@.len(),
    }
}

/// A template for layout has the parts that were authored, in order; each makes
/// as many tracks, repeated as often, and every track is sized as authored.
pub proof fn lemma_templates_are_as_authored<A: Arithmetic>(
    arith: &A,
    q: Reading,
    template: Option<GridTemplate>,
    scale_factor: Scalar,
    r: Seq<TemplateComponent>,
)
    requires
        is_faithful(arith, q),
        is_grid_template(arith, template, scale_factor, r),
    ensures
        template is None ==> r.len() == 0,
        template matches Some(template) ==> r.len() == template.tracks@.len(),
        template matches Some(template) ==> forall|i: int|
            0 <= i < r.len() ==> {
                &&& mapped_tracks(#[trigger] r[i]) == authored_tracks(template.tracks@[i])
                &&& r[i] is Repeat <==> template.tracks@[i] is Repeat
                &&& r[i] is Repeat ==> r[i]->count == template.tracks@[i]->count
            },
        template matches Some(template) ==> forall|i: int, k: int|
            0 <= i < r.len() && 0 <= k < listed_tracks(template.tracks@[i]) ==> {
                let bounds = track_bounds(authored_track(template.tracks@[i], k));
                let sizing = #[trigger] mapped_track(r[i], k);
                &&& bounds_below(q, bounds.0, scale_factor, sizing.min)
                &&& bounds_above(q, bounds.1, scale_factor, sizing.max)
            },
{
    if let Some(template) = template {
        assert forall|i: int| 0 <= i < r.len() implies {
            &&& mapped_tracks(#[trigger] r[i]) == authored_tracks(template.tracks@[i])
            &&& r[i] is Repeat <==> template.tracks@[i] is Repeat
            &&& r[i] is Repeat ==> r[i]->count == template.tracks@[i]->count
        } by {
            assert(is_template_component(arith, template.tracks@[i], scale_factor, r[i]));
        }
        assert forall|i: int, k: int|
            0 <= i < r.len() && 0 <= k < listed_tracks(template.tracks@[i]) implies {
            let bounds = track_bounds(authored_track(template.tracks@[i], k));
            let sizing = #[trigger] mapped_track(r[i], k);
            &&& bounds_below(q, bounds.0, scale_factor, sizing.min)
            &&& bounds_above(q, bounds.1, scale_factor, sizing.max)
        } by {
            assert(is_template_component(arith, template.tracks@[i], scale_factor, r[i]));
            let track = authored_track(template.tracks@[i], k);
            assert(is_track_sizing(arith, track, scale_factor, mapped_track(r[i], k)));
            lemma_tracks_are_as_authored(arith, q, track, scale_factor, mapped_track(r[i], k));
        }
    }
}

/// The rows and columns of a grid are mapped alike and each from its own
/// template.
pub proof fn lemma_grids_are_as_authored<A: Arithmetic>(
    arith: &A,
    style: Style,
    rem_size: Pixels,
    scale_factor: Scalar,
    r: LayoutStyle,
)
    requires
        style.maps_to(arith, rem_size, scale_factor, r),
    ensures
        is_grid_template(arith, style.grid_rows, scale_factor, r.grid_template_rows@),
        is_grid_template(arith, style.grid_cols, scale_factor, r.grid_template_columns@),
        style.grid_rows is None ==> r.grid_template_rows@.len() == 0,
        style.grid_cols is None ==> r.grid_template_columns@.len() == 0,
        style.grid_rows matches Some(t) ==> r.grid_template_rows@.len() == t.tracks@.len(),
        style.grid_cols matches Some(t) ==> r.grid_template_columns@.len() == t.tracks@.len(),
{
}

/// Collecting calc expressions keeps order and number: those of two lists one
/// after the other are those of the first and then those of the second, and a
/// single length has its own expression or none.
pub proof fn lemma_calcs_of_lists(one: Seq<Length>, other: Seq<Length>, length: Length)
    ensures
        calcs_among(one + other) == calcs_among(one) + calcs_among(other),
        calcs_among(seq![length]) == (match length {
            Length::Calc(value) => seq![value],
            _ => Seq::empty(),
        }),
    decreases other.len(),
{
    reveal_with_fuel(calcs_among, 2);
    assert(seq![length].drop_last() =~= Seq::<Length>::empty());
    if other.len() == 0 {
        assert(one + other =~= one);
        assert(calcs_among(one) + calcs_among(other) =~= calcs_among(one));
    } else {
        assert((one + other).drop_last() =~= one + other.drop_last());
        lemma_calcs_of_lists(one, other.drop_last(), length);
        assert(calcs_among(one + other) =~= calcs_among(one) + calcs_among(other));
    }
}

} // verus!

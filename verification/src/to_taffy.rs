//! From authored styles to the styles that the layout algorithms read.
//!
//! Absolute lengths become whole device pixels here, before layout, so that
//! borders, padding, gaps, fixed grid tracks and explicit sizes keep the same
//! thickness wherever a box ends up.

use vstd::prelude::*;

use crate::geometry::{Edges, Size};
use crate::layout_style::{
    Dimension, GridLine, LayoutStyle, LengthPercentage, LengthPercentageAuto, MaxTrackSizing,
    MinTrackSizing, TemplateComponent, TrackSizing,
};
use crate::number::{is_device_length, is_device_stroke, Arithmetic, CalcLength, Pixels, Scalar};
use crate::style::{
    calcs_among, lemma_calcs_among_contains, AbsoluteLength, DefiniteLength, GridLocation,
    GridPlacement, GridTemplate, GridTemplateComponent, GridTrack, GridTrackMax, GridTrackMin,
    Length, Style,
};

verus! {

/// Conversion of a part of a style into its form for layout.
pub trait ToTaffy<A: Arithmetic, Output>: Sized {
    /// `r` is the form for layout of this value.
    spec fn maps_to(
        &self,
        arith: &A,
        rem_size: Pixels,
        scale_factor: Scalar,
        r: Output,
    ) -> bool;

    /// The form for layout of this value.
    fn to_taffy(&self, arith: &A, rem_size: Pixels, scale_factor: Scalar) -> (r:
        Output)
        ensures
            self.maps_to(arith, rem_size, scale_factor, r),
    ;
}

/// `r` is `length` in whole device pixels.
pub open spec fn is_snapped<A: Arithmetic>(
    arith: &A,
    length: AbsoluteLength,
    rem_size: Pixels,
    scale_factor: Scalar,
    r: Scalar,
) -> bool {
    exists|pixels: Pixels|
        {
            &&& #[trigger] length.is_in_pixels(arith, rem_size, pixels)
            &&& is_device_length(arith, pixels.0, scale_factor, r)
        }
}

/// An absolute length in whole device pixels.
fn snapped_length<A: Arithmetic>(
    arith: &A,
    length: &AbsoluteLength,
    rem_size: Pixels,
    scale_factor: Scalar,
) -> (r: Scalar)
    ensures
        is_snapped(arith, *length, rem_size, scale_factor, r),
{
    let pixels = length.to_pixels(arith, rem_size);
    arith.round_to_device_pixel(pixels.0, scale_factor)
}

impl<A: Arithmetic> ToTaffy<A, Scalar> for AbsoluteLength {
    open spec fn maps_to(
        &self,
        arith: &A,
        rem_size: Pixels,
        scale_factor: Scalar,
        r: Scalar,
    ) -> bool {
        is_snapped(arith, *self, rem_size, scale_factor, r)
    }

    fn to_taffy(&self, arith: &A, rem_size: Pixels, scale_factor: Scalar) -> (r:
        Scalar) {
        snapped_length(arith, self, rem_size, scale_factor)
    }
}

impl<A: Arithmetic> ToTaffy<A, LengthPercentage> for AbsoluteLength {
    open spec fn maps_to(
        &self,
        arith: &A,
        rem_size: Pixels,
        scale_factor: Scalar,
        r: LengthPercentage,
    ) -> bool {
        &&& r is Length
        &&& is_snapped(arith, *self, rem_size, scale_factor, r->Length_0)
    }

    fn to_taffy(&self, arith: &A, rem_size: Pixels, scale_factor: Scalar) -> (r:
        LengthPercentage) {
        let length = snapped_length(arith, self, rem_size, scale_factor);
        let r = LengthPercentage::Length(length);
        assert(<AbsoluteLength as ToTaffy<A, LengthPercentage>>::maps_to(
            self,
            arith,
            rem_size,
            scale_factor,
            r,
        ));
        r
    }
}

impl<A: Arithmetic> ToTaffy<A, LengthPercentageAuto> for AbsoluteLength {
    open spec fn maps_to(
        &self,
        arith: &A,
        rem_size: Pixels,
        scale_factor: Scalar,
        r: LengthPercentageAuto,
    ) -> bool {
        &&& r is Length
        &&& is_snapped(arith, *self, rem_size, scale_factor, r->Length_0)
    }

    fn to_taffy(&self, arith: &A, rem_size: Pixels, scale_factor: Scalar) -> (r:
        LengthPercentageAuto) {
        let length = snapped_length(arith, self, rem_size, scale_factor);
        let r = LengthPercentageAuto::Length(length);
        assert(<AbsoluteLength as ToTaffy<A, LengthPercentageAuto>>::maps_to(
            self,
            arith,
            rem_size,
            scale_factor,
            r,
        ));
        r
    }
}

impl<A: Arithmetic> ToTaffy<A, Dimension> for AbsoluteLength {
    open spec fn maps_to(
        &self,
        arith: &A,
        rem_size: Pixels,
        scale_factor: Scalar,
        r: Dimension,
    ) -> bool {
        &&& r is Length
        &&& is_snapped(arith, *self, rem_size, scale_factor, r->Length_0)
    }

    fn to_taffy(&self, arith: &A, rem_size: Pixels, scale_factor: Scalar) -> (r:
        Dimension) {
        let length = snapped_length(arith, self, rem_size, scale_factor);
        let r = Dimension::Length(length);
        assert(<AbsoluteLength as ToTaffy<A, Dimension>>::maps_to(
            self,
            arith,
            rem_size,
            scale_factor,
            r,
        ));
        r
    }
}

impl<A: Arithmetic> ToTaffy<A, LengthPercentage> for DefiniteLength {
    open spec fn maps_to(
        &self,
        arith: &A,
        rem_size: Pixels,
        scale_factor: Scalar,
        r: LengthPercentage,
    ) -> bool {
        match *self {
            DefiniteLength::Absolute(length) => {
                &&& r is Length
                &&& is_snapped(arith, length, rem_size, scale_factor, r->Length_0)
            },
            DefiniteLength::Fraction(fraction) => r == LengthPercentage::Percent(fraction),
        }
    }

    fn to_taffy(&self, arith: &A, rem_size: Pixels, scale_factor: Scalar) -> (r:
        LengthPercentage) {
        match self {
            DefiniteLength::Absolute(length) => length.to_taffy(arith, rem_size, scale_factor),
            DefiniteLength::Fraction(fraction) => LengthPercentage::Percent(*fraction),
        }
    }
}

impl<A: Arithmetic> ToTaffy<A, LengthPercentageAuto> for DefiniteLength {
    open spec fn maps_to(
        &self,
        arith: &A,
        rem_size: Pixels,
        scale_factor: Scalar,
        r: LengthPercentageAuto,
    ) -> bool {
        match *self {
            DefiniteLength::Absolute(length) => {
                &&& r is Length
                &&& is_snapped(arith, length, rem_size, scale_factor, r->Length_0)
            },
            DefiniteLength::Fraction(fraction) => r == LengthPercentageAuto::Percent(fraction),
        }
    }

    fn to_taffy(&self, arith: &A, rem_size: Pixels, scale_factor: Scalar) -> (r:
        LengthPercentageAuto) {
        match self {
            DefiniteLength::Absolute(length) => length.to_taffy(arith, rem_size, scale_factor),
            DefiniteLength::Fraction(fraction) => LengthPercentageAuto::Percent(*fraction),
        }
    }
}

impl<A: Arithmetic> ToTaffy<A, Dimension> for DefiniteLength {
    open spec fn maps_to(
        &self,
        arith: &A,
        rem_size: Pixels,
        scale_factor: Scalar,
        r: Dimension,
    ) -> bool {
        match *self {
            DefiniteLength::Absolute(length) => {
                &&& r is Length
                &&& is_snapped(arith, length, rem_size, scale_factor, r->Length_0)
            },
            DefiniteLength::Fraction(fraction) => r == Dimension::Percent(fraction),
        }
    }

    fn to_taffy(&self, arith: &A, rem_size: Pixels, scale_factor: Scalar) -> (r:
        Dimension) {
        match self {
            DefiniteLength::Absolute(length) => length.to_taffy(arith, rem_size, scale_factor),
            DefiniteLength::Fraction(fraction) => Dimension::Percent(*fraction),
        }
    }
}

impl<A: Arithmetic> ToTaffy<A, LengthPercentageAuto> for Length {
    open spec fn maps_to(
        &self,
        arith: &A,
        rem_size: Pixels,
        scale_factor: Scalar,
        r: LengthPercentageAuto,
    ) -> bool {
        match *self {
            Length::Definite(length) => length.maps_to(arith, rem_size, scale_factor, r),
            Length::Calc(length) => r == LengthPercentageAuto::Calc(length.handle),
            Length::Auto => r == LengthPercentageAuto::Auto,
        }
    }

    fn to_taffy(&self, arith: &A, rem_size: Pixels, scale_factor: Scalar) -> (r:
        LengthPercentageAuto) {
        match self {
            Length::Definite(length) => length.to_taffy(arith, rem_size, scale_factor),
            Length::Calc(length) => LengthPercentageAuto::Calc(length.handle),
            Length::Auto => LengthPercentageAuto::Auto,
        }
    }
}

impl<A: Arithmetic> ToTaffy<A, Dimension> for Length {
    open spec fn maps_to(
        &self,
        arith: &A,
        rem_size: Pixels,
        scale_factor: Scalar,
        r: Dimension,
    ) -> bool {
        match *self {
            Length::Definite(length) => length.maps_to(arith, rem_size, scale_factor, r),
            Length::Calc(length) => r == Dimension::Calc(length.handle),
            Length::Auto => r == Dimension::Auto,
        }
    }

    fn to_taffy(&self, arith: &A, rem_size: Pixels, scale_factor: Scalar) -> (r:
        Dimension) {
        match self {
            Length::Definite(length) => length.to_taffy(arith, rem_size, scale_factor),
            Length::Calc(length) => Dimension::Calc(length.handle),
            Length::Auto => Dimension::Auto,
        }
    }
}

impl<A: Arithmetic, T: ToTaffy<A, U>, U> ToTaffy<A, Size<U>> for Size<T> {
    open spec fn maps_to(
        &self,
        arith: &A,
        rem_size: Pixels,
        scale_factor: Scalar,
        r: Size<U>,
    ) -> bool {
        &&& self.width.maps_to(arith, rem_size, scale_factor, r.width)
        &&& self.height.maps_to(arith, rem_size, scale_factor, r.height)
    }

    fn to_taffy(&self, arith: &A, rem_size: Pixels, scale_factor: Scalar) -> (r:
        Size<U>) {
        Size {
            width: self.width.to_taffy(arith, rem_size, scale_factor),
            height: self.height.to_taffy(arith, rem_size, scale_factor),
        }
    }
}

impl<A: Arithmetic, T: ToTaffy<A, U>, U> ToTaffy<A, Edges<U>> for Edges<T> {
    open spec fn maps_to(
        &self,
        arith: &A,
        rem_size: Pixels,
        scale_factor: Scalar,
        r: Edges<U>,
    ) -> bool {
        &&& self.top.maps_to(arith, rem_size, scale_factor, r.top)
        &&& self.right.maps_to(arith, rem_size, scale_factor, r.right)
        &&& self.bottom.maps_to(arith, rem_size, scale_factor, r.bottom)
        &&& self.left.maps_to(arith, rem_size, scale_factor, r.left)
    }

    fn to_taffy(&self, arith: &A, rem_size: Pixels, scale_factor: Scalar) -> (r:
        Edges<U>) {
        Edges {
            top: self.top.to_taffy(arith, rem_size, scale_factor),
            right: self.right.to_taffy(arith, rem_size, scale_factor),
            bottom: self.bottom.to_taffy(arith, rem_size, scale_factor),
            left: self.left.to_taffy(arith, rem_size, scale_factor),
        }
    }
}

/// `r` is the border width `width` as a stroke in whole device pixels.
pub open spec fn is_snapped_stroke<A: Arithmetic>(
    arith: &A,
    width: AbsoluteLength,
    rem_size: Pixels,
    scale_factor: Scalar,
    r: LengthPercentage,
) -> bool {
    &&& r is Length
    &&& exists|pixels: Pixels|
        {
            &&& #[trigger] width.is_in_pixels(arith, rem_size, pixels)
            &&& is_device_stroke(arith, pixels.0, scale_factor, r->Length_0)
        }
}

/// Each side of `r` is the corresponding border width as a stroke in whole
/// device pixels.
pub open spec fn are_snapped_strokes<A: Arithmetic>(
    arith: &A,
    widths: Edges<AbsoluteLength>,
    rem_size: Pixels,
    scale_factor: Scalar,
    r: Edges<LengthPercentage>,
) -> bool {
    &&& is_snapped_stroke(arith, widths.top, rem_size, scale_factor, r.top)
    &&& is_snapped_stroke(arith, widths.right, rem_size, scale_factor, r.right)
    &&& is_snapped_stroke(arith, widths.bottom, rem_size, scale_factor, r.bottom)
    &&& is_snapped_stroke(arith, widths.left, rem_size, scale_factor, r.left)
}

/// A border width as a stroke in whole device pixels.
fn border_width_to_taffy<A: Arithmetic>(
    arith: &A,
    width: &AbsoluteLength,
    rem_size: Pixels,
    scale_factor: Scalar,
) -> (r: LengthPercentage)
    ensures
        is_snapped_stroke(arith, *width, rem_size, scale_factor, r),
{
    let pixels = width.to_pixels(arith, rem_size);
    LengthPercentage::Length(arith.round_stroke_to_device_pixel(pixels.0, scale_factor))
}

/// Border widths as strokes in whole device pixels.
pub fn border_widths_to_taffy<A: Arithmetic>(
    arith: &A,
    widths: &Edges<AbsoluteLength>,
    rem_size: Pixels,
    scale_factor: Scalar,
) -> (r: Edges<LengthPercentage>)
    ensures
        are_snapped_strokes(arith, *widths, rem_size, scale_factor, r),
{
    Edges {
        top: border_width_to_taffy(arith, &widths.top, rem_size, scale_factor),
        right: border_width_to_taffy(arith, &widths.right, rem_size, scale_factor),
        bottom: border_width_to_taffy(arith, &widths.bottom, rem_size, scale_factor),
        left: border_width_to_taffy(arith, &widths.left, rem_size, scale_factor),
    }
}

/// `r` is the minimum sizing function of a track with this lower bound; a fixed
/// size is in whole device pixels.
pub open spec fn is_min_track_sizing<A: Arithmetic>(
    arith: &A,
    track: GridTrackMin,
    scale_factor: Scalar,
    r: MinTrackSizing,
) -> bool {
    match track {
        GridTrackMin::Px(value) => {
            &&& r is Length
            &&& is_device_length(arith, value.0, scale_factor, r->Length_0)
        },
        GridTrackMin::Auto => r is Auto,
        GridTrackMin::MinContent => r is MinContent,
        GridTrackMin::MaxContent => r is MaxContent,
    }
}

/// `r` is the maximum sizing function of a track with this upper bound; a fixed
/// size is in whole device pixels.
pub open spec fn is_max_track_sizing<A: Arithmetic>(
    arith: &A,
    track: GridTrackMax,
    scale_factor: Scalar,
    r: MaxTrackSizing,
) -> bool {
    match track {
        GridTrackMax::Px(value) => {
            &&& r is Length
            &&& is_device_length(arith, value.0, scale_factor, r->Length_0)
        },
        GridTrackMax::Fr(value) => r == MaxTrackSizing::Fr(value),
        GridTrackMax::Auto => r is Auto,
        GridTrackMax::MinContent => r is MinContent,
        GridTrackMax::MaxContent => r is MaxContent,
    }
}

/// `r` are the sizing functions of a track: a track with a single size uses it
/// both as its lower and as its upper bound, and a flexible track is at least as
/// large as its items require. A fixed size is in whole device pixels.
pub open spec fn is_track_sizing<A: Arithmetic>(
    arith: &A,
    track: GridTrack,
    scale_factor: Scalar,
    r: TrackSizing,
) -> bool {
    match track {
        GridTrack::Px(value) => {
            &&& r.min is Length
            &&& r.max is Length
            &&& r.min->Length_0 == r.max->Length_0
            &&& is_device_length(arith, value.0, scale_factor, r.min->Length_0)
        },
        GridTrack::Fr(value) => r.min is Auto && r.max == MaxTrackSizing::Fr(value),
        GridTrack::Auto => r.min is Auto && r.max is Auto,
        GridTrack::MinContent => r.min is MinContent && r.max is MinContent,
        GridTrack::MaxContent => r.min is MaxContent && r.max is MaxContent,
        GridTrack::MinMax { min, max } => {
            &&& is_min_track_sizing(arith, min, scale_factor, r.min)
            &&& is_max_track_sizing(arith, max, scale_factor, r.max)
        },
    }
}

/// The minimum sizing function of a track.
fn to_min_track<A: Arithmetic>(arith: &A, track: &GridTrackMin, scale_factor: Scalar) -> (r:
    MinTrackSizing)
    ensures
        is_min_track_sizing(arith, *track, scale_factor, r),
{
    match track {
        GridTrackMin::Px(value) => MinTrackSizing::Length(
            arith.round_to_device_pixel(value.0, scale_factor),
        ),
        GridTrackMin::Auto => MinTrackSizing::Auto,
        GridTrackMin::MinContent => MinTrackSizing::MinContent,
        GridTrackMin::MaxContent => MinTrackSizing::MaxContent,
    }
}

/// The maximum sizing function of a track.
fn to_max_track<A: Arithmetic>(arith: &A, track: &GridTrackMax, scale_factor: Scalar) -> (r:
    MaxTrackSizing)
    ensures
        is_max_track_sizing(arith, *track, scale_factor, r),
{
    match track {
        GridTrackMax::Px(value) => MaxTrackSizing::Length(
            arith.round_to_device_pixel(value.0, scale_factor),
        ),
        GridTrackMax::Fr(value) => MaxTrackSizing::Fr(*value),
        GridTrackMax::Auto => MaxTrackSizing::Auto,
        GridTrackMax::MinContent => MaxTrackSizing::MinContent,
        GridTrackMax::MaxContent => MaxTrackSizing::MaxContent,
    }
}

/// The sizing functions of a track.
fn to_track<A: Arithmetic>(arith: &A, track: &GridTrack, scale_factor: Scalar) -> (r: TrackSizing)
    ensures
        is_track_sizing(arith, *track, scale_factor, r),
{
    match track {
        GridTrack::Px(value) => {
            let length = arith.round_to_device_pixel(value.0, scale_factor);
            TrackSizing {
                min: MinTrackSizing::Length(length),
                max: MaxTrackSizing::Length(length),
            }
        },
        GridTrack::Fr(value) => TrackSizing {
            min: MinTrackSizing::Auto,
            max: MaxTrackSizing::Fr(*value),
        },
        GridTrack::Auto => TrackSizing { min: MinTrackSizing::Auto, max: MaxTrackSizing::Auto },
        GridTrack::MinContent => TrackSizing {
            min: MinTrackSizing::MinContent,
            max: MaxTrackSizing::MinContent,
        },
        GridTrack::MaxContent => TrackSizing {
            min: MinTrackSizing::MaxContent,
            max: MaxTrackSizing::MaxContent,
        },
        GridTrack::MinMax { min, max } => TrackSizing {
            min: to_min_track(arith, min, scale_factor),
            max: to_max_track(arith, max, scale_factor),
        },
    }
}

/// `r` holds the sizing functions of `tracks`, in order.
pub open spec fn are_track_sizings<A: Arithmetic>(
    arith: &A,
    tracks: Seq<GridTrack>,
    scale_factor: Scalar,
    r: Seq<TrackSizing>,
) -> bool {
    &&& r.len() == tracks.len()
    &&& forall|i: int|
        0 <= i < r.len() ==> is_track_sizing(arith, tracks[i], scale_factor, #[trigger] r[i])
}

/// `r` is the template part `component` by sizing functions.
pub open spec fn is_template_component<A: Arithmetic>(
    arith: &A,
    component: GridTemplateComponent,
    scale_factor: Scalar,
    r: TemplateComponent,
) -> bool {
    match component {
        GridTemplateComponent::Track(track) => {
            &&& r is Single
            &&& is_track_sizing(arith, track, scale_factor, r->Single_0)
        },
        GridTemplateComponent::Repeat { count, tracks } => {
            &&& r is Repeat
            &&& r->count == count
            &&& are_track_sizings(arith, tracks@, scale_factor, r->tracks@)
        },
    }
}

/// `r` is `template` by sizing functions: the same parts in the same order, or
/// none without a template.
pub open spec fn is_grid_template<A: Arithmetic>(
    arith: &A,
    template: Option<GridTemplate>,
    scale_factor: Scalar,
    r: Seq<TemplateComponent>,
) -> bool {
    match template {
        Some(template) => {
            &&& r.len() == template.tracks@.len()
            &&& forall|i: int|
                0 <= i < r.len() ==> is_template_component(
                    arith,
                    template.tracks@[i],
                    scale_factor,
                    #[trigger] r[i],
                )
        },
        None => r.len() == 0,
    }
}

/// The sizing functions of a list of tracks.
fn to_tracks<A: Arithmetic>(arith: &A, tracks: &Vec<GridTrack>, scale_factor: Scalar) -> (r: Vec<
    TrackSizing,
>)
    ensures
        are_track_sizings(arith, tracks@, scale_factor, r@),
{
    let mut sizings: Vec<TrackSizing> = Vec::new();
    let mut i: usize = 0;
    while i < tracks.len()
        invariant
            i <= tracks@.len(),
            sizings@.len() == i,
            forall|k: int|
                0 <= k < i ==> is_track_sizing(
                    arith,
                    tracks@[k],
                    scale_factor,
                    #[trigger] sizings@[k],
                ),
        decreases tracks@.len() - i,
    {
        sizings.push(to_track(arith, &tracks[i], scale_factor));
        i = i + 1;
    }
    sizings
}

/// A grid template by sizing functions.
pub fn to_grid_template<A: Arithmetic>(
    arith: &A,
    template: &Option<GridTemplate>,
    scale_factor: Scalar,
) -> (r: Vec<TemplateComponent>)
    ensures
        is_grid_template(arith, *template, scale_factor, r@),
{
    let mut components: Vec<TemplateComponent> = Vec::new();
    if let Some(template) = template {
        let mut i: usize = 0;
        while i < template.tracks.len()
            invariant
                i <= template.tracks@.len(),
                components@.len() == i,
                forall|k: int|
                    0 <= k < i ==> is_template_component(
                        arith,
                        template.tracks@[k],
                        scale_factor,
                        #[trigger] components@[k],
                    ),
            decreases template.tracks@.len() - i,
        {
            let component = match &template.tracks[i] {
                GridTemplateComponent::Track(track) => TemplateComponent::Single(
                    to_track(arith, track, scale_factor),
                ),
                GridTemplateComponent::Repeat { count, tracks } => TemplateComponent::Repeat {
                    count: *count,
                    tracks: to_tracks(arith, tracks, scale_factor),
                },
            };
            components.push(component);
            i = i + 1;
        }
    }
    components
}

/// The rows of a grid location, or automatic placement without one.
pub open spec fn grid_row(location: Option<GridLocation>) -> GridLine {
    match location {
        Some(location) => GridLine { start: location.row.start, end: location.row.end },
        None => GridLine { start: GridPlacement::Auto, end: GridPlacement::Auto },
    }
}

/// The columns of a grid location, or automatic placement without one.
pub open spec fn grid_column(location: Option<GridLocation>) -> GridLine {
    match location {
        Some(location) => GridLine { start: location.column.start, end: location.column.end },
        None => GridLine { start: GridPlacement::Auto, end: GridPlacement::Auto },
    }
}

/// The rows of a grid location.
fn to_grid_row(location: &Option<GridLocation>) -> (r: GridLine)
    ensures
        r == grid_row(*location),
{
    match location {
        Some(location) => GridLine { start: location.row.start, end: location.row.end },
        None => GridLine { start: GridPlacement::Auto, end: GridPlacement::Auto },
    }
}

/// The columns of a grid location.
fn to_grid_column(location: &Option<GridLocation>) -> (r: GridLine)
    ensures
        r == grid_column(*location),
{
    match location {
        Some(location) => GridLine { start: location.column.start, end: location.column.end },
        None => GridLine { start: GridPlacement::Auto, end: GridPlacement::Auto },
    }
}

impl<A: Arithmetic> ToTaffy<A, LayoutStyle> for Style {
    open spec fn maps_to(
        &self,
        arith: &A,
        rem_size: Pixels,
        scale_factor: Scalar,
        r: LayoutStyle,
    ) -> bool {
        &&& r.display == self.display
        &&& r.overflow == self.overflow
        &&& self.scrollbar_width.maps_to(arith, rem_size, scale_factor, r.scrollbar_width)
        &&& r.position == self.position
        &&& self.inset.maps_to(arith, rem_size, scale_factor, r.inset)
        &&& self.size.maps_to(arith, rem_size, scale_factor, r.size)
        &&& self.min_size.maps_to(arith, rem_size, scale_factor, r.min_size)
        &&& self.max_size.maps_to(arith, rem_size, scale_factor, r.max_size)
        &&& r.aspect_ratio == self.aspect_ratio
        &&& self.margin.maps_to(arith, rem_size, scale_factor, r.margin)
        &&& self.padding.maps_to(arith, rem_size, scale_factor, r.padding)
        &&& are_snapped_strokes(arith, self.border_widths, rem_size, scale_factor, r.border)
        &&& r.align_items == self.align_items
        &&& r.align_self == self.align_self
        &&& r.align_content == self.align_content
        &&& r.justify_content == self.justify_content
        &&& self.gap.maps_to(arith, rem_size, scale_factor, r.gap)
        &&& r.flex_direction == self.flex_direction
        &&& r.flex_wrap == self.flex_wrap
        &&& self.flex_basis.maps_to(arith, rem_size, scale_factor, r.flex_basis)
        &&& r.flex_grow == self.flex_grow
        &&& r.flex_shrink == self.flex_shrink
        &&& is_grid_template(arith, self.grid_rows, scale_factor, r.grid_template_rows@)
        &&& is_grid_template(arith, self.grid_cols, scale_factor, r.grid_template_columns@)
        &&& r.grid_row == grid_row(self.grid_location)
        &&& r.grid_column == grid_column(self.grid_location)
    }

    fn to_taffy(&self, arith: &A, rem_size: Pixels, scale_factor: Scalar) -> (r:
        LayoutStyle) {
        LayoutStyle {
            display: self.display,
            overflow: self.overflow,
            scrollbar_width: self.scrollbar_width.to_taffy(arith, rem_size, scale_factor),
            position: self.position,
            inset: self.inset.to_taffy(arith, rem_size, scale_factor),
            size: self.size.to_taffy(arith, rem_size, scale_factor),
            min_size: self.min_size.to_taffy(arith, rem_size, scale_factor),
            max_size: self.max_size.to_taffy(arith, rem_size, scale_factor),
            aspect_ratio: self.aspect_ratio,
            margin: self.margin.to_taffy(arith, rem_size, scale_factor),
            padding: self.padding.to_taffy(arith, rem_size, scale_factor),
            border: border_widths_to_taffy(arith, &self.border_widths, rem_size, scale_factor),
            align_items: self.align_items,
            align_self: self.align_self,
            align_content: self.align_content,
            justify_content: self.justify_content,
            gap: self.gap.to_taffy(arith, rem_size, scale_factor),
            flex_direction: self.flex_direction,
            flex_wrap: self.flex_wrap,
            flex_basis: self.flex_basis.to_taffy(arith, rem_size, scale_factor),
            flex_grow: self.flex_grow,
            flex_shrink: self.flex_shrink,
            grid_template_rows: to_grid_template(arith, &self.grid_rows, scale_factor),
            grid_template_columns: to_grid_template(arith, &self.grid_cols, scale_factor),
            grid_row: to_grid_row(&self.grid_location),
            grid_column: to_grid_column(&self.grid_location),
        }
    }
}

/// A style for layout refers to exactly the calc expressions that are collected
/// from the authored style, so whoever keeps those keeps all that layout can
/// ask for.
pub proof fn lemma_collected_calcs_are_those_referred_to<A: Arithmetic>(
    arith: &A,
    style: Style,
    rem_size: Pixels,
    scale_factor: Scalar,
    r: LayoutStyle,
    handle: u64,
)
    requires
        style.maps_to(arith, rem_size, scale_factor, r),
    ensures
        r.refers_to(handle) <==> calcs_among(style.calc_candidates()).contains(
            CalcLength { handle },
        ),
{
    let lengths = style.calc_candidates();
    let value = Length::Calc(CalcLength { handle });
    lemma_calcs_among_contains(lengths, CalcLength { handle });
    assert(lengths.len() == 15);
    if r.refers_to(handle) {
        assert(exists|k: int| 0 <= k < 15 && lengths[k] == value) by {
            assert(lengths[0] == style.inset.top);
            assert(lengths[1] == style.inset.right);
            assert(lengths[2] == style.inset.bottom);
            assert(lengths[3] == style.inset.left);
            assert(lengths[4] == style.size.width);
            assert(lengths[5] == style.size.height);
            assert(lengths[6] == style.min_size.width);
            assert(lengths[7] == style.min_size.height);
            assert(lengths[8] == style.max_size.width);
            assert(lengths[9] == style.max_size.height);
            assert(lengths[10] == style.margin.top);
            assert(lengths[11] == style.margin.right);
            assert(lengths[12] == style.margin.bottom);
            assert(lengths[13] == style.margin.left);
            assert(lengths[14] == style.flex_basis);
        }
    }
    if lengths.contains(value) {
        let k = choose|k: int| 0 <= k < 15 && lengths[k] == value;
        assert(lengths[k] == value);
    }
}

} // verus!

//! Styles as elements author them.

use std::ops::Range;

use vstd::prelude::*;

use crate::geometry::{Edges, Point, Size};
use crate::number::{is_product, Arithmetic, CalcLength, Pixels, Scalar};

verus! {

/// How the children of an element are laid out.
#[derive(Clone, Copy, Debug, PartialEq, Eq, Structural)]
pub enum Display {
    /// Block layout.
    Block,
    /// Block layout in a block formatting context of its own.
    FlowRoot,
    /// Flexbox layout.
    Flex,
    /// Grid layout.
    Grid,
    /// The element and its children are not laid out at all (`display: none`).
    Hidden,
}

/// What happens to content that is larger than its box.
#[derive(Clone, Copy, Debug, PartialEq, Eq, Structural)]
pub enum Overflow {
    /// The content takes part in the automatic minimum size and is shown.
    Visible,
    /// The content takes part in the automatic minimum size and is cut off.
    Clip,
    /// The content does not take part in the automatic minimum size.
    Hidden,
    /// As `Hidden`, with space reserved for a scrollbar.
    Scroll,
}

/// What the inset of an element is measured from.
#[derive(Clone, Copy, Debug, PartialEq, Eq, Structural)]
pub enum Position {
    /// The position that layout gives the element.
    Relative,
    /// The containing element, out of the flow.
    Absolute,
}

/// Alignment of items on the cross axis.
#[derive(Clone, Copy, Debug, PartialEq, Eq, Structural)]
pub enum AlignItems {
    /// Packed toward the start of the axis.
    Start,
    /// Packed toward the end of the axis.
    End,
    /// Packed toward the start as flexbox orders it.
    FlexStart,
    /// Packed toward the end as flexbox orders it.
    FlexEnd,
    /// Packed around the centre.
    Center,
    /// Aligned by the first baseline.
    Baseline,
    /// Stretched to fill the container.
    Stretch,
}

/// Distribution of the space between and around content.
#[derive(Clone, Copy, Debug, PartialEq, Eq, Structural)]
pub enum AlignContent {
    /// Packed toward the start of the axis.
    Start,
    /// Packed toward the end of the axis.
    End,
    /// Packed toward the start as flexbox orders it.
    FlexStart,
    /// Packed toward the end as flexbox orders it.
    FlexEnd,
    /// Packed around the centre.
    Center,
    /// Stretched to fill the container.
    Stretch,
    /// Space between items, none at the ends.
    SpaceBetween,
    /// Equal space between items and at the ends.
    SpaceEvenly,
    /// Equal space around each item.
    SpaceAround,
}

/// The main axis of a flex container.
#[derive(Clone, Copy, Debug, PartialEq, Eq, Structural)]
pub enum FlexDirection {
    /// Along the inline axis.
    Row,
    /// Along the block axis.
    Column,
    /// Along the inline axis, backwards.
    RowReverse,
    /// Along the block axis, backwards.
    ColumnReverse,
}

/// Whether flex items may take more than one line.
#[derive(Clone, Copy, Debug, PartialEq, Eq, Structural)]
pub enum FlexWrap {
    /// A single line.
    NoWrap,
    /// As many lines as needed.
    Wrap,
    /// As many lines as needed, in reverse order.
    WrapReverse,
}

/// A length in multiples of the root font size.
#[derive(Clone, Copy, Debug, PartialEq, Eq)]
pub struct Rems(pub Scalar);

/// A length that depends on nothing but the root font size.
#[derive(Clone, Copy, Debug, PartialEq, Eq)]
pub enum AbsoluteLength {
    /// A length in logical pixels.
    Pixels(Pixels),
    /// A length in rems.
    Rems(Rems),
}

impl AbsoluteLength {
    /// `r` is this length in logical pixels.
    pub open spec fn is_in_pixels<A: Arithmetic>(
        self,
        arith: &A,
        rem_size: Pixels,
        r: Pixels,
    ) -> bool {
        match self {
            AbsoluteLength::Pixels(pixels) => r == pixels,
            AbsoluteLength::Rems(rems) => is_product(arith, rems.0, rem_size.0, r.0),
        }
    }

    /// This length in logical pixels.
    pub fn to_pixels<A: Arithmetic>(&self, arith: &A, rem_size: Pixels) -> (r: Pixels)
        ensures
            self.is_in_pixels(arith, rem_size, r),
    {
        match self {
            AbsoluteLength::Pixels(pixels) => *pixels,
            AbsoluteLength::Rems(rems) => Pixels(arith.product(rems.0, rem_size.0)),
        }
    }
}

/// A length that is an absolute one or a share of the containing element.
#[derive(Clone, Copy, Debug, PartialEq, Eq)]
pub enum DefiniteLength {
    /// An absolute length.
    Absolute(AbsoluteLength),
    /// A share of the containing element, with one for the whole of it.
    Fraction(Scalar),
}

/// A length as a style gives it.
#[derive(Clone, Copy, Debug, PartialEq, Eq)]
pub enum Length {
    /// A definite length.
    Definite(DefiniteLength),
    /// The value of a calc expression.
    Calc(CalcLength),
    /// A length that layout determines.
    Auto,
}

/// The least size of a grid track.
#[derive(Clone, Copy, Debug, PartialEq, Eq)]
pub enum GridTrackMin {
    /// A fixed size in logical pixels.
    Px(Pixels),
    /// The automatic minimum of the items.
    Auto,
    /// The min-content size of the items.
    MinContent,
    /// The max-content size of the items.
    MaxContent,
}

/// The greatest size of a grid track.
#[derive(Clone, Copy, Debug, PartialEq, Eq)]
pub enum GridTrackMax {
    /// A fixed size in logical pixels.
    Px(Pixels),
    /// A share of the free space.
    Fr(Scalar),
    /// The size of the items.
    Auto,
    /// The min-content size of the items.
    MinContent,
    /// The max-content size of the items.
    MaxContent,
}

/// The size of a grid track.
#[derive(Clone, Copy, Debug, PartialEq, Eq)]
pub enum GridTrack {
    /// A fixed size in logical pixels.
    Px(Pixels),
    /// A share of the free space.
    Fr(Scalar),
    /// The size of the items.
    Auto,
    /// The min-content size of the items.
    MinContent,
    /// The max-content size of the items.
    MaxContent,
    /// A size between two bounds.
    MinMax {
        /// The lower bound.
        min: GridTrackMin,
        /// The upper bound.
        max: GridTrackMax,
    },
}

/// One part of a grid template.
#[derive(Debug, PartialEq, Eq)]
pub enum GridTemplateComponent {
    /// A single track.
    Track(GridTrack),
    /// A list of tracks, several times over.
    Repeat {
        /// How many times the list is repeated.
        count: u16,
        /// The list.
        tracks: Vec<GridTrack>,
    },
}

/// The tracks of a grid along one axis.
#[derive(Debug, PartialEq, Eq)]
pub struct GridTemplate {
    /// The parts of the template, in order.
    pub tracks: Vec<GridTemplateComponent>,
}

/// Where an item starts or ends in a grid.
#[derive(Clone, Copy, Debug, PartialEq, Eq, Structural)]
pub enum GridPlacement {
    /// At the line with this number.
    Line(i16),
    /// After spanning this many tracks.
    Span(u16),
    /// Where automatic placement puts it.
    Auto,
}

/// The area of a grid that an item takes.
#[derive(Debug, PartialEq, Eq)]
pub struct GridLocation {
    /// The rows.
    pub row: Range<GridPlacement>,
    /// The columns.
    pub column: Range<GridPlacement>,
}

/// The part of an element's style that decides its layout.
#[derive(Debug, PartialEq, Eq)]
pub struct Style {
    /// How the children are laid out.
    pub display: Display,
    /// How overflowing content is treated on each axis.
    pub overflow: Point<Overflow>,
    /// The thickness of scrollbars.
    pub scrollbar_width: AbsoluteLength,
    /// What `inset` is measured from.
    pub position: Position,
    /// The offset of each side.
    pub inset: Edges<Length>,
    /// The size of the element.
    pub size: Size<Length>,
    /// The least size of the element.
    pub min_size: Size<Length>,
    /// The greatest size of the element.
    pub max_size: Size<Length>,
    /// The preferred width divided by the preferred height.
    pub aspect_ratio: Option<Scalar>,
    /// The space outside the border.
    pub margin: Edges<Length>,
    /// The space inside the border.
    pub padding: Edges<DefiniteLength>,
    /// The thickness of the border.
    pub border_widths: Edges<AbsoluteLength>,
    /// Alignment of the children on the cross axis.
    pub align_items: Option<AlignItems>,
    /// Alignment of the element itself on the cross axis.
    pub align_self: Option<AlignItems>,
    /// Distribution of space on the cross axis.
    pub align_content: Option<AlignContent>,
    /// Distribution of space on the main axis.
    pub justify_content: Option<AlignContent>,
    /// The gaps between children.
    pub gap: Size<DefiniteLength>,
    /// The main axis of a flex container.
    pub flex_direction: FlexDirection,
    /// Whether flex items wrap.
    pub flex_wrap: FlexWrap,
    /// The initial size of a flex item on the main axis.
    pub flex_basis: Length,
    /// The share of free space that a flex item takes.
    pub flex_grow: Scalar,
    /// The share of missing space that a flex item gives up.
    pub flex_shrink: Scalar,
    /// The rows of a grid container.
    pub grid_rows: Option<GridTemplate>,
    /// The columns of a grid container.
    pub grid_cols: Option<GridTemplate>,
    /// The area that a grid item takes.
    pub grid_location: Option<GridLocation>,
}

impl Style {
    /// The lengths of this style that may be calc expressions, in the order in
    /// which their expressions are collected.
    pub open spec fn calc_candidates(self) -> Seq<Length> {
        seq![
            self.inset.top,
            self.inset.right,
            self.inset.bottom,
            self.inset.left,
            self.size.width,
            self.size.height,
            self.min_size.width,
            self.min_size.height,
            self.max_size.width,
            self.max_size.height,
            self.margin.top,
            self.margin.right,
            self.margin.bottom,
            self.margin.left,
            self.flex_basis,
        ]
    }
}

/// The calc expressions among `lengths`, in order.
pub open spec fn calcs_among(lengths: Seq<Length>) -> Seq<CalcLength>
    decreases lengths.len(),
{
    if lengths.len() == 0 {
        Seq::empty()
    } else {
        match lengths.last() {
            Length::Calc(value) => calcs_among(lengths.drop_last()).push(value),
            _ => calcs_among(lengths.drop_last()),
        }
    }
}

/// An expression is among the collected ones exactly when a length is that
/// expression.
pub proof fn lemma_calcs_among_contains(lengths: Seq<Length>, value: CalcLength)
    ensures
        calcs_among(lengths).contains(value) <==> lengths.contains(Length::Calc(value)),
    decreases lengths.len(),
{
    if lengths.len() > 0 {
        let init = lengths.drop_last();
        lemma_calcs_among_contains(init, value);
        assert(lengths =~= init.push(lengths.last()));
        assert(lengths.contains(Length::Calc(value)) <==> (init.contains(Length::Calc(value))
            || lengths.last() == Length::Calc(value))) by {
            if init.contains(Length::Calc(value)) {
                let k = choose|k: int| 0 <= k < init.len() && init[k] == Length::Calc(value);
                assert(lengths[k] == Length::Calc(value));
            }
        }
        if let Length::Calc(last) = lengths.last() {
            let head = calcs_among(init);
            let all = head.push(last);
            assert(all[head.len() as int] == last);
            if head.contains(value) {
                let k = choose|k: int| 0 <= k < head.len() && head[k] == value;
                assert(all[k] == value);
            }
            if all.contains(value) {
                let k = choose|k: int| 0 <= k < all.len() && all[k] == value;
                if k < head.len() {
                    assert(head[k] == value);
                }
            }
        }
    }
}

/// The calc expressions that the layout of `style` refers to.
pub fn calc_lengths(style: &Style) -> (values: Vec<CalcLength>)
    ensures
        values@ == calcs_among(style.calc_candidates()),
{
    let lengths: [Length; 15] = [
        style.inset.top,
        style.inset.right,
        style.inset.bottom,
        style.inset.left,
        style.size.width,
        style.size.height,
        style.min_size.width,
        style.min_size.height,
        style.max_size.width,
        style.max_size.height,
        style.margin.top,
        style.margin.right,
        style.margin.bottom,
        style.margin.left,
        style.flex_basis,
    ];
    assert(lengths@ =~= style.calc_candidates());
    let mut values: Vec<CalcLength> = Vec::new();
    let mut i: usize = 0;
    while i < 15
        invariant
            i <= 15,
            lengths@ == style.calc_candidates(),
            lengths@.len() == 15,
            values@ == calcs_among(lengths@.take(i as int)),
        decreases 15 - i,
    {
        assert(lengths@.take(i + 1).drop_last() =~= lengths@.take(i as int));
        match lengths[i] {
            Length::Definite(_) => {},
            Length::Calc(value) => values.push(value),
            Length::Auto => {},
        }
        i = i + 1;
    }
    assert(lengths@.take(15) =~= lengths@);
    values
}

} // verus!

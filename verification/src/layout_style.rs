//! Styles as the layout algorithms read them: absolute lengths in whole device
//! pixels, calc expressions by handle, grid templates by sizing function.

use vstd::prelude::*;

use crate::geometry::{Edges, Point, Size};
use crate::number::Scalar;
use crate::style::{
    AlignContent, AlignItems, Display, FlexDirection, FlexWrap, GridPlacement, Overflow, Position,
};

verus! {

/// A length in device pixels or a percentage.
#[derive(Clone, Copy, Debug, PartialEq, Eq)]
pub enum LengthPercentage {
    /// A length in device pixels.
    Length(Scalar),
    /// A share of the containing box.
    Percent(Scalar),
}

/// A length in device pixels, a percentage, a calc expression or `auto`.
#[derive(Clone, Copy, Debug, PartialEq, Eq)]
pub enum LengthPercentageAuto {
    /// A length in device pixels.
    Length(Scalar),
    /// A share of the containing box.
    Percent(Scalar),
    /// The handle of a calc expression.
    Calc(u64),
    /// A length that layout determines.
    Auto,
}

/// The size of a box along one axis.
#[derive(Clone, Copy, Debug, PartialEq, Eq)]
pub enum Dimension {
    /// A length in device pixels.
    Length(Scalar),
    /// A share of the containing box.
    Percent(Scalar),
    /// The handle of a calc expression.
    Calc(u64),
    /// A size that layout determines.
    Auto,
}

impl Dimension {
    /// Whether layout determines the size.
    pub fn is_auto(&self) -> (r: bool)
        ensures
            r == (self is Auto),
    {
        match self {
            Dimension::Auto => true,
            _ => false,
        }
    }
}

/// The minimum sizing function of a grid track.
#[derive(Clone, Copy, Debug, PartialEq, Eq)]
pub enum MinTrackSizing {
    /// A fixed size in device pixels.
    Length(Scalar),
    /// The automatic minimum of the items.
    Auto,
    /// The min-content size of the items.
    MinContent,
    /// The max-content size of the items.
    MaxContent,
}

/// The maximum sizing function of a grid track.
#[derive(Clone, Copy, Debug, PartialEq, Eq)]
pub enum MaxTrackSizing {
    /// A fixed size in device pixels.
    Length(Scalar),
    /// A share of the free space.
    Fr(Scalar),
    /// The size of the items.
    Auto,
    /// The min-content size of the items.
    MinContent,
    /// The max-content size of the items.
    MaxContent,
}

/// The sizing functions of a grid track.
#[derive(Clone, Copy, Debug, PartialEq, Eq)]
pub struct TrackSizing {
    /// The minimum sizing function.
    pub min: MinTrackSizing,
    /// The maximum sizing function.
    pub max: MaxTrackSizing,
}

/// One part of a grid template.
#[derive(Debug, PartialEq, Eq)]
pub enum TemplateComponent {
    /// A single track.
    Single(TrackSizing),
    /// A list of tracks, several times over.
    Repeat {
        /// How many times the list is repeated.
        count: u16,
        /// The list.
        tracks: Vec<TrackSizing>,
    },
}

/// Where a grid item starts and ends along one axis.
#[derive(Clone, Copy, Debug, PartialEq, Eq, Structural)]
pub struct GridLine {
    /// Where the item starts.
    pub start: GridPlacement,
    /// Where the item ends.
    pub end: GridPlacement,
}

/// A style as the layout algorithms read it.
#[derive(Debug, PartialEq, Eq)]
pub struct LayoutStyle {
    /// How the children are laid out.
    pub display: Display,
    /// How overflowing content is treated on each axis.
    pub overflow: Point<Overflow>,
    /// The thickness of scrollbars in device pixels.
    pub scrollbar_width: Scalar,
    /// What `inset` is measured from.
    pub position: Position,
    /// The offset of each side.
    pub inset: Edges<LengthPercentageAuto>,
    /// The size of the box.
    pub size: Size<Dimension>,
    /// The least size of the box.
    pub min_size: Size<Dimension>,
    /// The greatest size of the box.
    pub max_size: Size<Dimension>,
    /// The preferred width divided by the preferred height.
    pub aspect_ratio: Option<Scalar>,
    /// The space outside the border.
    pub margin: Edges<LengthPercentageAuto>,
    /// The space inside the border.
    pub padding: Edges<LengthPercentage>,
    /// The thickness of the border.
    pub border: Edges<LengthPercentage>,
    /// Alignment of the children on the cross axis.
    pub align_items: Option<AlignItems>,
    /// Alignment of the box itself on the cross axis.
    pub align_self: Option<AlignItems>,
    /// Distribution of space on the cross axis.
    pub align_content: Option<AlignContent>,
    /// Distribution of space on the main axis.
    pub justify_content: Option<AlignContent>,
    /// The gaps between children.
    pub gap: Size<LengthPercentage>,
    /// The main axis of a flex container.
    pub flex_direction: FlexDirection,
    /// Whether flex items wrap.
    pub flex_wrap: FlexWrap,
    /// The initial size of a flex item on the main axis.
    pub flex_basis: Dimension,
    /// The share of free space that a flex item takes.
    pub flex_grow: Scalar,
    /// The share of missing space that a flex item gives up.
    pub flex_shrink: Scalar,
    /// The rows of a grid container.
    pub grid_template_rows: Vec<TemplateComponent>,
    /// The columns of a grid container.
    pub grid_template_columns: Vec<TemplateComponent>,
    /// The rows that a grid item takes.
    pub grid_row: GridLine,
    /// The columns that a grid item takes.
    pub grid_column: GridLine,
}

/// One of the four sides is the calc expression with this handle.
pub open spec fn edges_refer_to(edges: Edges<LengthPercentageAuto>, handle: u64) -> bool {
    ||| edges.top == LengthPercentageAuto::Calc(handle)
    ||| edges.right == LengthPercentageAuto::Calc(handle)
    ||| edges.bottom == LengthPercentageAuto::Calc(handle)
    ||| edges.left == LengthPercentageAuto::Calc(handle)
}

/// One of the two dimensions is the calc expression with this handle.
pub open spec fn size_refers_to(size: Size<Dimension>, handle: u64) -> bool {
    ||| size.width == Dimension::Calc(handle)
    ||| size.height == Dimension::Calc(handle)
}

impl LayoutStyle {
    /// Some length of this style is the calc expression with this handle.
    pub open spec fn refers_to(self, handle: u64) -> bool {
        ||| edges_refer_to(self.inset, handle)
        ||| size_refers_to(self.size, handle)
        ||| size_refers_to(self.min_size, handle)
        ||| size_refers_to(self.max_size, handle)
        ||| edges_refer_to(self.margin, handle)
        ||| self.flex_basis == Dimension::Calc(handle)
    }
}

} // verus!

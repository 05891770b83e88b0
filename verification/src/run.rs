//! What the layout algorithms are told while they run: which of them lays out a
//! node, how a leaf is measured, and what a calc expression is worth.

use vstd::prelude::*;

use crate::geometry::Size;
use crate::number::{
    default_rem_size, is_device_length, is_quotient, is_resolved_calc, Arithmetic, CalcLength,
    Pixels, Scalar,
};
use crate::snapping::{is_snapped_measured_size, snap_measured_size_to_device_pixels};
use crate::space::AvailableSpace;
use crate::style::Display;
use crate::tree::{GpuiTaffyTree, LayoutId, LayoutNode, NodeContext};

verus! {

/// What to do first when a node is to be laid out.
#[derive(Clone, Copy, Debug, PartialEq, Eq, Structural)]
pub enum FirstStep {
    /// Lay the node out as hidden, past its cache.
    Hide,
    /// Look the result up in the cache of the node, and run the node's
    /// algorithm only where it is not there.
    LookUp,
}

/// What to do first: a run that hides nodes does not look at caches.
pub fn first_step(hides_nodes: bool) -> (step: FirstStep)
    ensures
        step == (if hides_nodes {
            FirstStep::Hide
        } else {
            FirstStep::LookUp
        }),
{
    if hides_nodes {
        FirstStep::Hide
    } else {
        FirstStep::LookUp
    }
}

/// The algorithm that lays out a node.
#[derive(Clone, Copy, Debug, PartialEq, Eq, Structural)]
pub enum Algorithm {
    /// The node and all nodes below it get no space.
    Hidden,
    /// The node is a leaf, and may be measured.
    Leaf,
    /// Block layout, in the block formatting context that the node is in.
    Block,
    /// Block layout in a block formatting context of its own.
    FlowRoot,
    /// Flexbox layout.
    Flex,
    /// Grid layout.
    Grid,
}

/// The algorithm that lays out a node with this `display`: a hidden node is
/// hidden whether or not it has children, and a node without children is a leaf
/// whatever else its `display` says.
pub open spec fn algorithm_for(display: Display, has_children: bool) -> Algorithm {
    if display is Hidden {
        Algorithm::Hidden
    } else if !has_children {
        Algorithm::Leaf
    } else {
        match display {
            Display::Hidden => Algorithm::Hidden,
            Display::Block => Algorithm::Block,
            Display::FlowRoot => Algorithm::FlowRoot,
            Display::Flex => Algorithm::Flex,
            Display::Grid => Algorithm::Grid,
        }
    }
}

/// What the measurement of a leaf is handed.
#[derive(Clone, Copy, Debug, PartialEq, Eq)]
pub struct MeasureInput {
    /// The extents that are fixed already, in logical pixels.
    pub known_dimensions: Size<Option<Pixels>>,
    /// The space that is available, in logical pixels.
    pub available_space: Size<AvailableSpace>,
}

/// What a measurement tells of a leaf, in logical pixels.
#[derive(Clone, Copy, Debug, PartialEq, Eq)]
pub struct MeasuredLayout {
    /// The size of the content.
    pub size: Size<Pixels>,
    /// The distance from the top to the first baseline, if there is one.
    pub first_baseline: Option<Pixels>,
}

/// What the layout algorithms learn of a leaf, in device pixels.
#[derive(Clone, Copy, Debug, PartialEq, Eq)]
pub struct LeafMetrics {
    /// The size of the content.
    pub size: Size<Scalar>,
    /// The distance from the top to the first baseline, if there is one.
    pub first_baseline: Option<Scalar>,
}

/// Something that measures a leaf in a window of type `W`; `C` is what it works
/// with besides the window.
pub trait Measure<W, C> {
    /// The size of the leaf and its first baseline, in logical pixels, from the
    /// extents that are fixed already and the space that is available.
    fn measure(
        &mut self,
        known_dimensions: Size<Option<Pixels>>,
        available_space: Size<AvailableSpace>,
        window: &mut W,
        cx: &mut C,
    ) -> (Size<Pixels>, Option<Pixels>);
}

/// `r` is the extent `dimension` in logical pixels, where there is one.
pub open spec fn is_logical_dimension<A: Arithmetic>(
    arith: &A,
    dimension: Option<Scalar>,
    scale_factor: Scalar,
    r: Option<Pixels>,
) -> bool {
    match dimension {
        Some(dimension) => r is Some && is_quotient(arith, dimension, scale_factor, (r->0).0),
        None => r is None,
    }
}

/// An extent in logical pixels.
fn logical_dimension<A: Arithmetic>(
    arith: &A,
    dimension: Option<Scalar>,
    scale_factor: Scalar,
) -> (r: Option<Pixels>)
    ensures
        is_logical_dimension(arith, dimension, scale_factor, r),
{
    match dimension {
        Some(dimension) => Some(Pixels(arith.quotient(dimension, scale_factor))),
        None => None,
    }
}

/// `r` is what the measurement of a leaf is handed where the layout algorithms
/// know these extents and this space, in device pixels.
pub open spec fn is_measure_input<A: Arithmetic>(
    arith: &A,
    known_dimensions: Size<Option<Scalar>>,
    available_space: Size<AvailableSpace>,
    scale_factor: Scalar,
    r: MeasureInput,
) -> bool {
    &&& is_logical_dimension(
        arith,
        known_dimensions.width,
        scale_factor,
        r.known_dimensions.width,
    )
    &&& is_logical_dimension(
        arith,
        known_dimensions.height,
        scale_factor,
        r.known_dimensions.height,
    )
    &&& available_space.width.is_in_logical_pixels(arith, scale_factor, r.available_space.width)
    &&& available_space.height.is_in_logical_pixels(arith, scale_factor, r.available_space.height)
}

/// What to hand to the measurement of a leaf for which the layout algorithms
/// know these extents and this space, in device pixels.
pub fn measure_input<A: Arithmetic>(
    arith: &A,
    known_dimensions: Size<Option<Scalar>>,
    available_space: Size<AvailableSpace>,
    scale_factor: Scalar,
) -> (r: MeasureInput)
    ensures
        is_measure_input(arith, known_dimensions, available_space, scale_factor, r),
{
    MeasureInput {
        known_dimensions: Size {
            width: logical_dimension(arith, known_dimensions.width, scale_factor),
            height: logical_dimension(arith, known_dimensions.height, scale_factor),
        },
        available_space: Size {
            width: available_space.width.to_logical_pixels(arith, scale_factor),
            height: available_space.height.to_logical_pixels(arith, scale_factor),
        },
    }
}

/// What is told of a measured leaf, with the baseline only where it is reported.
pub open spec fn told_layout(
    reports_baseline: bool,
    told: (Size<Pixels>, Option<Pixels>),
) -> MeasuredLayout {
    MeasuredLayout {
        size: told.0,
        first_baseline: if reports_baseline {
            told.1
        } else {
            None
        },
    }
}

/// The layout of a leaf that is not measured: no space and no baseline.
pub open spec fn empty_layout() -> MeasuredLayout {
    MeasuredLayout {
        size: Size { width: Pixels(Scalar::zero()), height: Pixels(Scalar::zero()) },
        first_baseline: None,
    }
}

/// `r` is `measured` as the layout algorithms learn it: the size rounded up, and
/// the baseline rounded, to whole device pixels.
///
/// A baseline is aligned by moving the box that has it. Both the origin of that
/// box and the painted baseline land on whole device pixels, so the distance
/// between them has to be whole as well.
pub open spec fn are_leaf_metrics<A: Arithmetic>(
    arith: &A,
    measured: MeasuredLayout,
    scale_factor: Scalar,
    r: LeafMetrics,
) -> bool {
    &&& is_snapped_measured_size(arith, measured.size, scale_factor, r.size)
    &&& match measured.first_baseline {
        Some(baseline) => r.first_baseline is Some && is_device_length(
            arith,
            baseline.0,
            scale_factor,
            r.first_baseline->0,
        ),
        None => r.first_baseline is None,
    }
}

/// What the layout algorithms learn of a leaf that was measured.
pub fn leaf_metrics<A: Arithmetic>(
    arith: &A,
    measured: MeasuredLayout,
    scale_factor: Scalar,
) -> (r: LeafMetrics)
    ensures
        are_leaf_metrics(arith, measured, scale_factor, r),
{
    let first_baseline = match measured.first_baseline {
        Some(baseline) => Some(arith.round_to_device_pixel(baseline.0, scale_factor)),
        None => None,
    };
    LeafMetrics {
        size: snap_measured_size_to_device_pixels(arith, measured.size, scale_factor),
        first_baseline,
    }
}

/// The baseline that a leaf has in the end: none where the layout algorithms had
/// no need to measure it.
pub fn first_baseline(metrics: Option<LeafMetrics>) -> (r: Option<Scalar>)
    ensures
        r == (match metrics {
            Some(metrics) => metrics.first_baseline,
            None => None,
        }),
{
    match metrics {
        Some(metrics) => metrics.first_baseline,
        None => None,
    }
}

/// Some node keeps the calc expression with this handle.
pub open spec fn keeps_calc<M>(nodes: Seq<LayoutNode<M>>, handle: u64) -> bool {
    exists|i: int|
        0 <= i < nodes.len() && (#[trigger] nodes[i]).calc_lengths@.contains(CalcLength { handle })
}

/// `r` is what the calc expression with this handle is worth, or zero where no
/// node keeps it.
pub open spec fn is_calc_value<M, A: Arithmetic>(
    arith: &A,
    nodes: Seq<LayoutNode<M>>,
    handle: u64,
    basis: Scalar,
    scale_factor: Scalar,
    r: Scalar,
) -> bool {
    &&& keeps_calc(nodes, handle) ==> is_resolved_calc(
        arith,
        CalcLength { handle },
        basis,
        default_rem_size(),
        scale_factor,
        r,
    )
    &&& !keeps_calc(nodes, handle) ==> r == Scalar::zero()
}

impl<M> GpuiTaffyTree<M> {
    /// The algorithm that lays out a node.
    pub fn algorithm(&self, id: LayoutId) -> (algorithm: Algorithm)
        requires
            self.has(id),
        ensures
            algorithm == algorithm_for(self.at(id).style.display, self.at(id).children@.len() > 0),
    {
        let display = self.style(id).display;
        if let Display::Hidden = display {
            return Algorithm::Hidden;
        }
        if self.child_count(id) == 0 {
            return Algorithm::Leaf;
        }
        match display {
            Display::Hidden => Algorithm::Hidden,
            Display::Block => Algorithm::Block,
            Display::FlowRoot => Algorithm::FlowRoot,
            Display::Flex => Algorithm::Flex,
            Display::Grid => Algorithm::Grid,
        }
    }

    /// The layout of a leaf, from what its measurement tells: nothing is there
    /// without a measurement, and a leaf that does not report its baseline has
    /// none.
    pub open spec fn measured_layout(
        self,
        id: LayoutId,
        told: (Size<Pixels>, Option<Pixels>),
    ) -> MeasuredLayout {
        match self.at(id).context {
            Some(context) => told_layout(context.reports_baseline, told),
            None => empty_layout(),
        }
    }

    /// The layout of a leaf, from what its measurement tells. What is told of a
    /// leaf that is not measured does not matter.
    pub fn measured(&self, id: LayoutId, told: (Size<Pixels>, Option<Pixels>)) -> (r:
        MeasuredLayout)
        requires
            self.has(id),
        ensures
            r == self.measured_layout(id, told),
    {
        match &self.node(id).context {
            Some(context) => MeasuredLayout {
                size: told.0,
                first_baseline: if context.reports_baseline {
                    told.1
                } else {
                    None
                },
            },
            None => MeasuredLayout {
                size: Size { width: Pixels(Scalar::zero()), height: Pixels(Scalar::zero()) },
                first_baseline: None,
            },
        }
    }

    /// Measures a leaf for which the layout algorithms know these extents and
    /// this space, in device pixels: what measures the leaf is asked once, in
    /// logical pixels, and what it tells is rounded to whole device pixels. A
    /// leaf without a measurement is empty, and nothing is asked.
    pub fn measure_leaf<A: Arithmetic, W, C>(
        &mut self,
        arith: &A,
        id: LayoutId,
        known_dimensions: Size<Option<Scalar>>,
        available_space: Size<AvailableSpace>,
        scale_factor: Scalar,
        window: &mut W,
        cx: &mut C,
    ) -> (r: LeafMetrics) where M: Measure<W, C>
        requires
            old(self).has(id),
        ensures
            old(self).at(id).context matches Some(context) ==> exists|
                input: MeasureInput,
                told: (Size<Pixels>, Option<Pixels>),
                measure: &mut M,
                w: &mut W,
                c: &mut C,
            |
                {
                    &&& is_measure_input(
                        arith,
                        known_dimensions,
                        available_space,
                        scale_factor,
                        input,
                    )
                    &&& #[trigger] call_ensures(
                        M::measure,
                        (measure, input.known_dimensions, input.available_space, w, c),
                        told,
                    )
                    &&& *measure == context.measure
                    &&& *w == *old(window)
                    &&& *c == *old(cx)
                    &&& *final(w) == *final(window)
                    &&& *final(c) == *final(cx)
                    &&& final(self).nodes@ == old(self).nodes@.update(
                        id.0 as int,
                        LayoutNode {
                            context: Some(NodeContext { measure: *final(measure), ..context }),
                            ..old(self).at(id)
                        },
                    )
                    &&& are_leaf_metrics(
                        arith,
                        old(self).measured_layout(id, told),
                        scale_factor,
                        r,
                    )
                },
            old(self).at(id).context is None ==> {
                &&& final(self).nodes@ == old(self).nodes@
                &&& *final(window) == *old(window)
                &&& *final(cx) == *old(cx)
                &&& are_leaf_metrics(
                    arith,
                    empty_layout(),
                    scale_factor,
                    r,
                )
            },
            final(self).kin() == old(self).kin(),
    {
        let input = measure_input(arith, known_dimensions, available_space, scale_factor);
        let told = match &mut self.node_mut(id).context {
            Some(context) => context.measure.measure(
                input.known_dimensions,
                input.available_space,
                window,
                cx,
            ),
            None => (Size { width: Pixels(Scalar::zero()), height: Pixels(Scalar::zero()) }, None),
        };
        let measured = self.measured(id, told);
        assert(self.kin() =~= old(self).kin());
        leaf_metrics(arith, measured, scale_factor)
    }

    /// The value in device pixels of the calc expression with this handle, with
    /// percentages taken of `basis`; zero where no node keeps such an expression.
    pub fn resolve_calc_value<A: Arithmetic>(
        &self,
        arith: &A,
        handle: u64,
        basis: Scalar,
        scale_factor: Scalar,
    ) -> (r: Scalar)
        ensures
            is_calc_value(arith, self.nodes@, handle, basis, scale_factor, r),
    {
        let mut i: usize = 0;
        while i < self.nodes.len()
            invariant
                i <= self.nodes@.len(),
                forall|n: int|
                    0 <= n < i ==> !(#[trigger] self.nodes@[n]).calc_lengths@.contains(
                        CalcLength { handle },
                    ),
            decreases self.nodes@.len() - i,
        {
            let lengths = &self.nodes[i].calc_lengths;
            let mut j: usize = 0;
            while j < lengths.len()
                invariant
                    i < self.nodes@.len(),
                    lengths@ == self.nodes@[i as int].calc_lengths@,
                    j <= lengths@.len(),
                    forall|n: int| 0 <= n < j ==> #[trigger] lengths@[n] != (CalcLength { handle }),
                decreases lengths@.len() - j,
            {
                if lengths[j].handle == handle {
                    assert(lengths@[j as int] == CalcLength { handle });
                    assert(self.nodes@[i as int].calc_lengths@.contains(CalcLength { handle }));
                    return arith.resolve_calc(
                        lengths[j],
                        basis,
                        default_rem_size(),
                        scale_factor,
                    );
                }
                j = j + 1;
            }
            i = i + 1;
        }
        Scalar::zero()
    }
}

} // verus!

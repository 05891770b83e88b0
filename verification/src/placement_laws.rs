//! Where nodes are painted, told by the locations that layout gave them.

use vstd::prelude::*;

use crate::engine::TaffyLayoutEngine;
use crate::laws::lemma_asking_keeps_all_placed;
use crate::number::{Arithmetic, Scalar};
use crate::reading::{is_faithful, Reading};
use crate::scale_laws::{
    is_painted_along, lemma_painted_edges_are_nearest, lemma_points_add_up, paints_exactly,
};
use crate::tree::{LayoutId, LayoutNode};

verus! {

/// The sum of the locations from the root down to a node.
pub open spec fn offset<M>(nodes: Seq<LayoutNode<M>>, q: Reading, k: int) -> (real, real)
    decreases nodes.len() - k,
{
    let location = nodes[k].layout.location;
    let (x, y) = (q.of(location.x), q.of(location.y));
    match nodes[k].parent {
        Some(parent) => if 0 <= k < parent.0 < nodes.len() {
            let above = offset(nodes, q, parent.0 as int);
            (above.0 + x, above.1 + y)
        } else {
            (x, y)
        },
        None => (x, y),
    }
}

/// Scalars stand for the locations of a node and of all its ancestors, and for
/// every sum of them from the root down.
pub open spec fn is_exactly_offset<M>(nodes: Seq<LayoutNode<M>>, q: Reading, k: int) -> bool
    decreases nodes.len() - k,
{
    &&& 0 <= k < nodes.len()
    &&& q.has(nodes[k].layout.location.x)
    &&& q.has(nodes[k].layout.location.y)
    &&& (q.fits)(offset(nodes, q, k).0)
    &&& (q.fits)(offset(nodes, q, k).1)
    &&& nodes[k].parent matches Some(parent) ==> k < parent.0 < nodes.len() && is_exactly_offset(
        nodes,
        q,
        parent.0 as int,
    )
}

/// The absolute origin of a node is the sum of the locations from the root down.
pub proof fn lemma_origins_are_sums_of_locations<M, A: Arithmetic>(
    engine: TaffyLayoutEngine<M>,
    arith: &A,
    q: Reading,
    scale_factor: Scalar,
    k: u64,
)
    requires
        is_faithful(arith, q),
        engine.wf(),
        engine.all_placed(arith, scale_factor),
        engine.absolute_layout_bounds@.contains_key(k),
        is_exactly_offset(engine.taffy.nodes@, q, k as int),
    ensures
        q.reads(
            engine.absolute_outer_origins@[k].x,
            offset(engine.taffy.nodes@, q, k as int).0,
        ),
        q.reads(
            engine.absolute_outer_origins@[k].y,
            offset(engine.taffy.nodes@, q, k as int).1,
        ),
    decreases engine.taffy.nodes@.len() - k,
{
    assert(engine.known().contains(k));
    assert(engine.is_placed(arith, scale_factor, k));
    let node = engine.taffy.nodes@[k as int];
    if let Some(parent) = node.parent {
        assert(engine.absolute_layout_bounds@.dom().contains(parent.0));
        lemma_origins_are_sums_of_locations(engine, arith, q, scale_factor, parent.0);
        lemma_points_add_up(
            arith,
            q,
            engine.absolute_outer_origins@[parent.0],
            node.layout.location,
            engine.absolute_outer_origins@[k],
        );
    }
}

/// The bounds of a node say where layout put it: along each axis and at every
/// scale factor, its near edge times the scale factor is the integer that is
/// nearest to the sum of the locations from the root down, and its far edge the
/// one that is nearest to that sum plus its extent.
pub proof fn lemma_bounds_are_where_layout_put_them<M, A: Arithmetic>(
    before: TaffyLayoutEngine<M>,
    after: TaffyLayoutEngine<M>,
    arith: &A,
    q: Reading,
    id: LayoutId,
    scale_factor: Scalar,
)
    requires
        is_faithful(arith, q),
        before.wf(),
        after.wf(),
        before.all_placed(arith, scale_factor),
        before.is_asked_for(after, arith, id, scale_factor),
        after.absolute_layout_bounds@.contains_key(id.0),
        is_exactly_offset(before.taffy.nodes@, q, id.0 as int),
        q.has(scale_factor),
        q.has(before.taffy.nodes@[id.0 as int].layout.size.width),
        q.has(before.taffy.nodes@[id.0 as int].layout.size.height),
    ensures
        ({
            let near = offset(before.taffy.nodes@, q, id.0 as int);
            let width = q.of(before.taffy.nodes@[id.0 as int].layout.size.width);
            let height = q.of(before.taffy.nodes@[id.0 as int].layout.size.height);
            let s = q.of(scale_factor);
            let bounds = after.absolute_layout_bounds@[id.0];
            &&& paints_exactly(q, near.0, width, s) ==> is_painted_along(
                q,
                near.0,
                width,
                s,
                bounds.origin.x,
                bounds.size.width,
            )
            &&& paints_exactly(q, near.1, height, s) ==> is_painted_along(
                q,
                near.1,
                height,
                s,
                bounds.origin.y,
                bounds.size.height,
            )
        }),
{
    lemma_asking_keeps_all_placed(before, after, arith, scale_factor);
    lemma_origins_are_sums_of_locations(after, arith, q, scale_factor, id.0);
    assert(after.known().contains(id.0));
    assert(after.is_placed(arith, scale_factor, id.0));
    lemma_painted_edges_are_nearest(
        arith,
        q,
        after.absolute_outer_origins@[id.0],
        after.taffy.nodes@[id.0 as int].layout.size,
        scale_factor,
        after.absolute_layout_bounds@[id.0],
    );
}

} // verus!

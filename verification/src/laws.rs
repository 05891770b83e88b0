//! What holds of the engine across calls.

use vstd::prelude::*;

use crate::cache::occupied_slots;
use crate::engine::TaffyLayoutEngine;
use crate::geometry::{Bounds, Point, Size};
use crate::kinship::{
    is_self_or_ancestor, is_self_or_descendant, is_unknown_up_to,
    lemma_ancestors_hold_their_descendants, lemma_ancestry_is_transitive, lemma_parent_is_later,
    lemma_unknown_is_ancestor, well_linked, Kin,
};
use crate::number::{is_rounded, is_sum, Arithmetic, CalcLength, Pixels, Scalar};
use crate::run::{keeps_calc, MeasuredLayout};
use crate::snapping::{
    is_deterministic, is_exact_on_whole_numbers, is_far_corner, is_logical_bounds,
    is_rounded_point, is_whole_span,
    lemma_coincident_edges_close, lemma_far_edges_land_on_their_rounding, lemma_painted_at_one_place,
    lemma_painted_origins_agree, lemma_whole_boxes_keep_their_size, snaps_through, snaps_to,
};
use crate::style::{AbsoluteLength, Style};
use crate::style_laws::{
    is_surely, lemma_styles_are_whole, lemma_styles_map_one_way, maps_lengths_one_way,
    rounds_to_whole_numbers, same_layout_style,
};
use crate::to_taffy::{lemma_collected_calcs_are_those_referred_to, ToTaffy};
use crate::tree::{same_but_parent, LayoutId, LayoutNode, NodeContext};

verus! {

/// Asking for bounds that are known already changes nothing.
pub proof fn lemma_asking_again_changes_nothing<M, A: Arithmetic>(
    before: TaffyLayoutEngine<M>,
    after: TaffyLayoutEngine<M>,
    arith: &A,
    id: LayoutId,
    scale_factor: Scalar,
)
    requires
        before.wf(),
        after.wf(),
        before.known().contains(id.0),
        before.is_asked_for(after, arith, id, scale_factor),
    ensures
        after.taffy == before.taffy,
        after.absolute_layout_bounds@ == before.absolute_layout_bounds@,
        after.absolute_outer_origins@ == before.absolute_outer_origins@,
        after.computed_layouts == before.computed_layouts,
{
    assert forall|k: u64| after.known().contains(k) <==> before.known().contains(k) by {
        assert(!is_unknown_up_to(before.kin(), before.known(), id.0 as int, k as int));
    }
    assert(after.known() =~= before.known());
    assert(after.absolute_layout_bounds@ =~= before.absolute_layout_bounds@) by {
        assert forall|k: u64| #[trigger] before.absolute_layout_bounds@.contains_key(
            k,
        ) implies after.absolute_layout_bounds@[k] == before.absolute_layout_bounds@[k] by {
            assert(before.known().contains(k));
        }
    }
    assert(after.absolute_outer_origins@ =~= before.absolute_outer_origins@) by {
        assert(after.absolute_outer_origins@.dom() =~= before.absolute_outer_origins@.dom());
        assert forall|k: u64| #[trigger] before.absolute_outer_origins@.contains_key(
            k,
        ) implies after.absolute_outer_origins@[k] == before.absolute_outer_origins@[k] by {
            assert(before.known().contains(k));
        }
    }
}

/// What is learned in two steps is learned.
pub proof fn lemma_learning_is_transitive<M, A: Arithmetic>(
    before: TaffyLayoutEngine<M>,
    middle: TaffyLayoutEngine<M>,
    after: TaffyLayoutEngine<M>,
    arith: &A,
    scale_factor: Scalar,
)
    requires
        middle.wf(),
        after.wf(),
        before.learns(middle, arith, scale_factor),
        middle.learns(after, arith, scale_factor),
    ensures
        before.learns(after, arith, scale_factor),
{
    assert forall|k: u64| #[trigger]
        after.known().contains(k) && !before.known().contains(k) implies after.is_placed(
        arith,
        scale_factor,
        k,
    ) by {
        if middle.known().contains(k) {
            assert(middle.is_placed(arith, scale_factor, k));
            if let Some(parent) = middle.taffy.nodes@[k as int].parent {
                assert(middle.known().contains(parent.0));
                assert(after.known().contains(parent.0));
            }
        }
    }
    assert forall|k: u64| #[trigger] before.known().contains(k) implies {
        &&& after.known().contains(k)
        &&& after.absolute_layout_bounds@[k] == before.absolute_layout_bounds@[k]
        &&& after.absolute_outer_origins@[k] == before.absolute_outer_origins@[k]
    } by {
        assert(middle.known().contains(k));
    }
}

/// Two engines that started from the same one, and learned whatever they were
/// asked for, agree on every node that both know.
pub proof fn lemma_learned_bounds_agree<M, A: Arithmetic>(
    before: TaffyLayoutEngine<M>,
    one: TaffyLayoutEngine<M>,
    other: TaffyLayoutEngine<M>,
    arith: &A,
    scale_factor: Scalar,
    k: u64,
)
    requires
        is_deterministic(arith),
        before.wf(),
        one.wf(),
        other.wf(),
        before.learns(one, arith, scale_factor),
        before.learns(other, arith, scale_factor),
        one.known().contains(k),
        other.known().contains(k),
    ensures
        one.absolute_outer_origins@[k] == other.absolute_outer_origins@[k],
        one.absolute_layout_bounds@[k] == other.absolute_layout_bounds@[k],
    decreases before.taffy.nodes@.len() - k,
{
    if !before.known().contains(k) {
        assert(one.is_placed(arith, scale_factor, k));
        assert(other.is_placed(arith, scale_factor, k));
        assert(one.absolute_layout_bounds@.contains_key(k));
        let node = before.taffy.nodes@[k as int];
        if let Some(parent) = node.parent {
            assert(before.kin()[k as int] == node.kin());
            lemma_parent_is_later(before.kin(), k as int);
            assert(one.known().contains(parent.0));
            assert(other.known().contains(parent.0));
            lemma_learned_bounds_agree(before, one, other, arith, scale_factor, parent.0);
        }
        assert(one.absolute_outer_origins@[k] == other.absolute_outer_origins@[k]);
        lemma_painted_at_one_place(
            arith,
            one.absolute_outer_origins@[k],
            node.layout.size,
            scale_factor,
            one.absolute_layout_bounds@[k],
            other.absolute_layout_bounds@[k],
        );
    }
}

/// The bounds of a node do not depend on whether another node is asked for
/// before.
pub proof fn lemma_bounds_do_not_depend_on_order<M, A: Arithmetic>(
    before: TaffyLayoutEngine<M>,
    middle: TaffyLayoutEngine<M>,
    after: TaffyLayoutEngine<M>,
    direct: TaffyLayoutEngine<M>,
    arith: &A,
    scale_factor: Scalar,
    first: LayoutId,
    id: LayoutId,
)
    requires
        is_deterministic(arith),
        before.wf(),
        middle.wf(),
        after.wf(),
        direct.wf(),
        before.is_asked_for(middle, arith, first, scale_factor),
        middle.is_asked_for(after, arith, id, scale_factor),
        before.is_asked_for(direct, arith, id, scale_factor),
        after.known().contains(id.0),
        direct.known().contains(id.0),
    ensures
        after.absolute_layout_bounds@[id.0] == direct.absolute_layout_bounds@[id.0],
{
    lemma_learning_is_transitive(before, middle, after, arith, scale_factor);
    lemma_learned_bounds_agree(before, after, direct, arith, scale_factor, id.0);
}

/// Edge closure: two nodes with the same absolute left edge are painted with the
/// same left edge, and two with the same absolute top edge with the same top
/// edge, wherever in the tree they are.
pub proof fn lemma_aligned_nodes_are_painted_aligned<M, A: Arithmetic>(
    engine: TaffyLayoutEngine<M>,
    arith: &A,
    scale_factor: Scalar,
    one: u64,
    other: u64,
)
    requires
        is_deterministic(arith),
        engine.is_placed(arith, scale_factor, one),
        engine.is_placed(arith, scale_factor, other),
    ensures
        engine.absolute_outer_origins@[one].x == engine.absolute_outer_origins@[other].x
            ==> engine.absolute_layout_bounds@[one].origin.x
            == engine.absolute_layout_bounds@[other].origin.x,
        engine.absolute_outer_origins@[one].y == engine.absolute_outer_origins@[other].y
            ==> engine.absolute_layout_bounds@[one].origin.y
            == engine.absolute_layout_bounds@[other].origin.y,
{
    lemma_painted_origins_agree(
        arith,
        engine.absolute_outer_origins@[one],
        engine.taffy.nodes@[one as int].layout.size,
        engine.absolute_layout_bounds@[one],
        engine.absolute_outer_origins@[other],
        engine.taffy.nodes@[other as int].layout.size,
        engine.absolute_layout_bounds@[other],
        scale_factor,
    );
}

/// `device` is the rectangle of device pixels that the node with this index is
/// painted at.
pub open spec fn is_painted_on<M, A: Arithmetic>(
    engine: TaffyLayoutEngine<M>,
    arith: &A,
    scale_factor: Scalar,
    k: u64,
    device: Bounds<Scalar>,
) -> bool {
    &&& snaps_to(
        arith,
        engine.absolute_outer_origins@[k],
        engine.taffy.nodes@[k as int].layout.size,
        device,
    )
    &&& is_logical_bounds(arith, device, scale_factor, engine.absolute_layout_bounds@[k])
}

/// A node that is placed is painted at a rectangle of device pixels.
pub proof fn lemma_placed_node_is_painted<M, A: Arithmetic>(
    engine: TaffyLayoutEngine<M>,
    arith: &A,
    scale_factor: Scalar,
    k: u64,
) -> (device: Bounds<Scalar>)
    requires
        engine.is_placed(arith, scale_factor, k),
    ensures
        is_painted_on(engine, arith, scale_factor, k, device),
{
    choose|d: Bounds<Scalar>|
        #[trigger] snaps_to(
            arith,
            engine.absolute_outer_origins@[k],
            engine.taffy.nodes@[k as int].layout.size,
            d,
        ) && is_logical_bounds(arith, d, scale_factor, engine.absolute_layout_bounds@[k])
}

/// Edge closure: where the far edge of one node is the near edge of another,
/// wherever in the tree they are, no column or row of device pixels is left open
/// between them and none is painted by both. The edges have to round to whole
/// numbers that are small enough for their difference to be exact.
pub proof fn lemma_adjacent_nodes_meet<M, A: Arithmetic>(
    engine: TaffyLayoutEngine<M>,
    arith: &A,
    value: spec_fn(Scalar) -> Option<int>,
    limit: int,
    scale_factor: Scalar,
    one: u64,
    far: Point<Scalar>,
    other: u64,
)
    requires
        is_deterministic(arith),
        is_exact_on_whole_numbers(arith, value, limit),
        engine.is_placed(arith, scale_factor, one),
        engine.is_placed(arith, scale_factor, other),
        is_far_corner(
            arith,
            engine.absolute_outer_origins@[one],
            engine.taffy.nodes@[one as int].layout.size,
            far,
        ),
    ensures
        exists|device: Bounds<Scalar>, other_device: Bounds<Scalar>|
            {
                &&& #[trigger] is_painted_on(engine, arith, scale_factor, one, device)
                &&& #[trigger] is_painted_on(engine, arith, scale_factor, other, other_device)
                &&& far.x == engine.absolute_outer_origins@[other].x && is_whole_span(
                    value,
                    limit,
                    device.origin.x,
                    other_device.origin.x,
                ) ==> value(device.size.width) == Some(
                    value(other_device.origin.x)->0 - value(device.origin.x)->0,
                )
                &&& far.y == engine.absolute_outer_origins@[other].y && is_whole_span(
                    value,
                    limit,
                    device.origin.y,
                    other_device.origin.y,
                ) ==> value(device.size.height) == Some(
                    value(other_device.origin.y)->0 - value(device.origin.y)->0,
                )
            },
{
    let origin = engine.absolute_outer_origins@[one];
    let size = engine.taffy.nodes@[one as int].layout.size;
    let other_origin = engine.absolute_outer_origins@[other];
    let other_size = engine.taffy.nodes@[other as int].layout.size;
    let device = lemma_placed_node_is_painted(engine, arith, scale_factor, one);
    let other_device = lemma_placed_node_is_painted(engine, arith, scale_factor, other);
    let (f, n, edge) = choose|f: Point<Scalar>, n: Point<Scalar>, g: Point<Scalar>|
        #[trigger] snaps_through(arith, origin, size, f, n, g, device);
    let (f2, n2, g2) = choose|f: Point<Scalar>, n: Point<Scalar>, g: Point<Scalar>|
        #[trigger] snaps_through(arith, other_origin, other_size, f, n, g, other_device);
    lemma_coincident_edges_close(
        arith,
        origin,
        size,
        f,
        n,
        edge,
        device,
        other_origin,
        other_size,
        f2,
        n2,
        g2,
        other_device,
    );
    assert(is_sum(arith, origin.x, size.width, f.x) && is_sum(arith, origin.x, size.width, far.x));
    assert(is_sum(arith, origin.y, size.height, f.y) && is_sum(arith, origin.y, size.height, far.y));
    assert(f == far);
    lemma_far_edges_land_on_their_rounding(
        arith,
        value,
        limit,
        origin,
        size,
        far,
        device,
        edge,
    );
}

/// Edge closure: where the far edges of two nodes coincide, wherever in the tree
/// they are, both end at the same column or row of device pixels. The edges have
/// to round to whole numbers that are small enough for their differences to be
/// exact.
pub proof fn lemma_nodes_end_together<M, A: Arithmetic>(
    engine: TaffyLayoutEngine<M>,
    arith: &A,
    value: spec_fn(Scalar) -> Option<int>,
    limit: int,
    scale_factor: Scalar,
    one: u64,
    far: Point<Scalar>,
    edge: Point<Scalar>,
    other: u64,
    other_far: Point<Scalar>,
    other_edge: Point<Scalar>,
)
    requires
        is_deterministic(arith),
        is_exact_on_whole_numbers(arith, value, limit),
        engine.is_placed(arith, scale_factor, one),
        engine.is_placed(arith, scale_factor, other),
        is_far_corner(
            arith,
            engine.absolute_outer_origins@[one],
            engine.taffy.nodes@[one as int].layout.size,
            far,
        ),
        is_rounded_point(arith, far, edge),
        is_far_corner(
            arith,
            engine.absolute_outer_origins@[other],
            engine.taffy.nodes@[other as int].layout.size,
            other_far,
        ),
        is_rounded_point(arith, other_far, other_edge),
    ensures
        exists|device: Bounds<Scalar>, other_device: Bounds<Scalar>|
            {
                &&& #[trigger] is_painted_on(engine, arith, scale_factor, one, device)
                &&& #[trigger] is_painted_on(engine, arith, scale_factor, other, other_device)
                &&& far.x == other_far.x && is_whole_span(value, limit, device.origin.x, edge.x)
                    && is_whole_span(value, limit, other_device.origin.x, edge.x) ==> {
                    &&& value(device.size.width) is Some
                    &&& value(other_device.size.width) is Some
                    &&& value(device.origin.x)->0 + value(device.size.width)->0 == value(
                        other_device.origin.x,
                    )->0 + value(other_device.size.width)->0
                }
                &&& far.y == other_far.y && is_whole_span(value, limit, device.origin.y, edge.y)
                    && is_whole_span(value, limit, other_device.origin.y, edge.y) ==> {
                    &&& value(device.size.height) is Some
                    &&& value(other_device.size.height) is Some
                    &&& value(device.origin.y)->0 + value(device.size.height)->0 == value(
                        other_device.origin.y,
                    )->0 + value(other_device.size.height)->0
                }
            },
{
    let device = lemma_placed_node_is_painted(engine, arith, scale_factor, one);
    let other_device = lemma_placed_node_is_painted(engine, arith, scale_factor, other);
    lemma_far_edges_land_on_their_rounding(
        arith,
        value,
        limit,
        engine.absolute_outer_origins@[one],
        engine.taffy.nodes@[one as int].layout.size,
        far,
        device,
        edge,
    );
    lemma_far_edges_land_on_their_rounding(
        arith,
        value,
        limit,
        engine.absolute_outer_origins@[other],
        engine.taffy.nodes@[other as int].layout.size,
        other_far,
        other_device,
        other_edge,
    );
    assert(is_rounded(arith, far.x, edge.x) && is_rounded(arith, other_far.x, other_edge.x));
    assert(is_rounded(arith, far.y, edge.y) && is_rounded(arith, other_far.y, other_edge.y));
}

/// The locations of a node and of all its ancestors are whole numbers of device
/// pixels, and so small that every sum of them from the root down is at most
/// `limit` in magnitude.
pub open spec fn is_wholly_placed<M>(
    nodes: Seq<LayoutNode<M>>,
    value: spec_fn(Scalar) -> Option<int>,
    limit: int,
    k: int,
) -> bool
    decreases nodes.len() - k,
{
    let location = nodes[k].layout.location;
    let origin = whole_origin(nodes, value, k);
    &&& 0 <= k < nodes.len()
    &&& value(location.x) is Some
    &&& value(location.y) is Some
    &&& -limit <= origin.0 <= limit
    &&& -limit <= origin.1 <= limit
    &&& nodes[k].parent matches Some(parent) ==> k < parent.0 < nodes.len() && is_wholly_placed(
        nodes,
        value,
        limit,
        parent.0 as int,
    )
}

/// The sum of the locations from the root down to a node, where they are whole.
pub open spec fn whole_origin<M>(
    nodes: Seq<LayoutNode<M>>,
    value: spec_fn(Scalar) -> Option<int>,
    k: int,
) -> (int, int)
    decreases nodes.len() - k,
{
    let location = nodes[k].layout.location;
    let (x, y) = (value(location.x)->0, value(location.y)->0);
    match nodes[k].parent {
        Some(parent) => if 0 <= k < parent.0 < nodes.len() {
            let above = whole_origin(nodes, value, parent.0 as int);
            (above.0 + x, above.1 + y)
        } else {
            (x, y)
        },
        None => (x, y),
    }
}

/// The absolute origin of a node with whole locations all the way up is the sum
/// of those locations.
proof fn lemma_whole_origins_add_up<M, A: Arithmetic>(
    engine: TaffyLayoutEngine<M>,
    arith: &A,
    value: spec_fn(Scalar) -> Option<int>,
    limit: int,
    scale_factor: Scalar,
    k: u64,
)
    requires
        is_exact_on_whole_numbers(arith, value, limit),
        engine.wf(),
        engine.all_placed(arith, scale_factor),
        engine.known().contains(k),
        is_wholly_placed(engine.taffy.nodes@, value, limit, k as int),
    ensures
        value(engine.absolute_outer_origins@[k].x) == Some(
            whole_origin(engine.taffy.nodes@, value, k as int).0,
        ),
        value(engine.absolute_outer_origins@[k].y) == Some(
            whole_origin(engine.taffy.nodes@, value, k as int).1,
        ),
    decreases engine.taffy.nodes@.len() - k,
{
    assert(engine.is_placed(arith, scale_factor, k));
    let node = engine.taffy.nodes@[k as int];
    if let Some(parent) = node.parent {
        assert(engine.known().contains(parent.0));
        lemma_whole_origins_add_up(engine, arith, value, limit, scale_factor, parent.0);
        let above = engine.absolute_outer_origins@[parent.0];
        let origin = engine.absolute_outer_origins@[k];
        assert(is_sum(arith, above.x, node.layout.location.x, origin.x));
        assert(is_sum(arith, above.y, node.layout.location.y, origin.y));
    }
}

/// Whatever an engine is asked for, all that it remembers stays in line with the
/// layouts of the nodes.
pub proof fn lemma_asking_keeps_all_placed<M, A: Arithmetic>(
    before: TaffyLayoutEngine<M>,
    after: TaffyLayoutEngine<M>,
    arith: &A,
    scale_factor: Scalar,
)
    requires
        before.wf(),
        after.wf(),
        before.all_placed(arith, scale_factor),
        before.learns(after, arith, scale_factor),
    ensures
        after.all_placed(arith, scale_factor),
{
    assert forall|k: u64| #[trigger] after.known().contains(k) implies after.is_placed(
        arith,
        scale_factor,
        k,
    ) by {
        if before.known().contains(k) {
            assert(before.is_placed(arith, scale_factor, k));
            if let Some(parent) = before.taffy.nodes@[k as int].parent {
                assert(before.known().contains(parent.0));
                assert(after.known().contains(parent.0));
            }
        }
    }
}

/// Translation stability: a node whose size, location and ancestors' locations
/// are whole numbers of device pixels is painted with exactly that size,
/// wherever its ancestors are; they decide its origin only. Sums have to be small
/// enough to be exact.
pub proof fn lemma_whole_nodes_keep_their_size<M, A: Arithmetic>(
    before: TaffyLayoutEngine<M>,
    after: TaffyLayoutEngine<M>,
    arith: &A,
    value: spec_fn(Scalar) -> Option<int>,
    limit: int,
    scale_factor: Scalar,
    id: LayoutId,
)
    requires
        is_exact_on_whole_numbers(arith, value, limit),
        before.wf(),
        after.wf(),
        before.all_placed(arith, scale_factor),
        before.is_asked_for(after, arith, id, scale_factor),
        after.known().contains(id.0),
        is_wholly_placed(before.taffy.nodes@, value, limit, id.0 as int),
        ({
            let origin = whole_origin(before.taffy.nodes@, value, id.0 as int);
            let size = before.taffy.at(id).layout.size;
            &&& value(size.width) is Some
            &&& value(size.height) is Some
            &&& -limit <= value(size.width)->0 <= limit
            &&& -limit <= value(size.height)->0 <= limit
            &&& -limit <= origin.0 + value(size.width)->0 <= limit
            &&& -limit <= origin.1 + value(size.height)->0 <= limit
        }),
    ensures
        exists|device: Bounds<Scalar>|
            {
                let origin = whole_origin(before.taffy.nodes@, value, id.0 as int);
                let size = before.taffy.at(id).layout.size;
                &&& #[trigger] is_painted_on(after, arith, scale_factor, id.0, device)
                &&& value(device.origin.x) == Some(origin.0)
                &&& value(device.origin.y) == Some(origin.1)
                &&& value(device.size.width) == value(size.width)
                &&& value(device.size.height) == value(size.height)
            },
{
    lemma_asking_keeps_all_placed(before, after, arith, scale_factor);
    lemma_whole_origins_add_up(after, arith, value, limit, scale_factor, id.0);
    assert(after.is_placed(arith, scale_factor, id.0));
    let device = lemma_placed_node_is_painted(after, arith, scale_factor, id.0);
    lemma_whole_boxes_keep_their_size(
        arith,
        value,
        limit,
        after.absolute_outer_origins@[id.0],
        after.taffy.at(id).layout.size,
        device,
    );
}

/// Where nothing below `root` is known, nothing is known on the way up from a
/// node below it.
proof fn lemma_unknown_on_the_way(
    kin: Seq<Kin>,
    known: Set<u64>,
    root: int,
    id: int,
    above: int,
)
    requires
        well_linked(kin),
        0 <= id < kin.len(),
        forall|k: u64| is_self_or_descendant(kin, root, k as int) ==> !#[trigger] known.contains(k),
        is_self_or_ancestor(kin, id, above),
        is_self_or_ancestor(kin, above, root),
    ensures
        is_unknown_up_to(kin, known, id, above),
    decreases kin.len() - id,
{
    lemma_ancestry_is_transitive(kin, id, above, root);
    lemma_ancestors_hold_their_descendants(kin, id, root);
    assert(!known.contains(id as u64));
    if id != above {
        lemma_unknown_on_the_way(kin, known, root, kin[id].parent->0 as int, above);
    }
}

/// Once layout is computed again from `root`, the bounds of a node below it are
/// computed anew, from the layouts of all nodes on the way up to `root`: nothing
/// that an earlier computation led to is used.
pub proof fn lemma_bounds_are_fresh_after_relayout<M, A: Arithmetic>(
    before: TaffyLayoutEngine<M>,
    prepared: TaffyLayoutEngine<M>,
    laid_out: TaffyLayoutEngine<M>,
    after: TaffyLayoutEngine<M>,
    arith: &A,
    scale_factor: Scalar,
    root: LayoutId,
    id: LayoutId,
    above: LayoutId,
)
    requires
        before.wf(),
        before.computed_layouts@.contains(root.0),
        before.is_about_to_lay_out(prepared, root),
        laid_out.wf(),
        laid_out.remembers_as(prepared),
        laid_out.kin() == prepared.kin(),
        laid_out.taffy.has(id),
        laid_out.is_asked_for(after, arith, id, scale_factor),
        is_self_or_ancestor(before.kin(), id.0 as int, above.0 as int),
        is_self_or_ancestor(before.kin(), above.0 as int, root.0 as int),
    ensures
        !laid_out.known().contains(above.0),
        after.known().contains(above.0),
        after.is_placed(arith, scale_factor, above.0),
{
    let kin = before.kin();
    assert forall|k: u64| is_self_or_descendant(kin, root.0 as int, k as int) implies !#[trigger]
    laid_out.known().contains(k) by {
        assert(prepared.known().contains(k) == laid_out.known().contains(k));
    }
    lemma_unknown_on_the_way(kin, laid_out.known(), root.0 as int, id.0 as int, above.0 as int);
    lemma_unknown_is_ancestor(
        kin,
        laid_out.known(),
        id.0 as int,
        above.0 as int,
    );
    assert(after.known().contains(above.0));
}

/// Nothing is remembered of a node that was just requested.
pub proof fn lemma_requested_node_is_not_known<M, A: Arithmetic>(
    before: TaffyLayoutEngine<M>,
    after: TaffyLayoutEngine<M>,
    arith: &A,
    style: Style,
    rem_size: Pixels,
    scale_factor: Scalar,
    children: Seq<LayoutId>,
    context: Option<NodeContext<M>>,
    id: LayoutId,
)
    requires
        before.wf(),
        before.gains_node(
            after,
            arith,
            style,
            rem_size,
            scale_factor,
            children,
            context,
            id,
        ),
    ensures
        !before.taffy.has(id),
        !after.known().contains(id.0),
        !after.computed_layouts@.contains(id.0),
{
    assert(before.known() == after.known());
    if after.known().contains(id.0) {
        assert(before.absolute_layout_bounds@.contains_key(id.0));
    }
    if after.computed_layouts@.contains(id.0) {
        assert(before.computed_layouts@.contains(id.0));
    }
}

/// Every calc expression that the style of a requested node refers to can be
/// resolved: the node keeps it.
pub proof fn lemma_requested_node_keeps_its_calcs<M, A: Arithmetic>(
    before: TaffyLayoutEngine<M>,
    after: TaffyLayoutEngine<M>,
    arith: &A,
    style: Style,
    rem_size: Pixels,
    scale_factor: Scalar,
    children: Seq<LayoutId>,
    context: Option<NodeContext<M>>,
    id: LayoutId,
    handle: u64,
)
    requires
        before.gains_node(
            after,
            arith,
            style,
            rem_size,
            scale_factor,
            children,
            context,
            id,
        ),
        after.taffy.at(id).style.refers_to(handle),
    ensures
        after.taffy.at(id).calc_lengths@.contains(CalcLength { handle }),
        keeps_calc(after.taffy.nodes@, handle),
{
    let node = after.taffy.nodes@[id.0 as int];
    lemma_collected_calcs_are_those_referred_to(
        arith,
        style,
        rem_size,
        scale_factor,
        node.style,
        handle,
    );
    assert(node.calc_lengths@.contains(CalcLength { handle }));
}

/// What a measurement tells is taken over as it is, but for the baseline of a
/// leaf that was requested without one; a node that was requested without a
/// measurement takes no space of its own.
pub proof fn lemma_measurements_are_taken_over<M, A: Arithmetic>(
    before: TaffyLayoutEngine<M>,
    after: TaffyLayoutEngine<M>,
    arith: &A,
    style: Style,
    rem_size: Pixels,
    scale_factor: Scalar,
    children: Seq<LayoutId>,
    context: Option<NodeContext<M>>,
    id: LayoutId,
    size: Size<Pixels>,
    baseline: Option<Pixels>,
)
    requires
        before.gains_node(
            after,
            arith,
            style,
            rem_size,
            scale_factor,
            children,
            context,
            id,
        ),
    ensures
        after.taffy.measured_layout(id, (size, baseline)) == (match context {
            Some(context) => MeasuredLayout {
                size,
                first_baseline: if context.reports_baseline {
                    baseline
                } else {
                    None
                },
            },
            None => MeasuredLayout {
                size: Size { width: Pixels(Scalar::zero()), height: Pixels(Scalar::zero()) },
                first_baseline: None,
            },
        }),
{
}

/// A node is requested with whole numbers of device pixels for all its lengths.
pub proof fn lemma_requested_node_is_whole<M, A: Arithmetic>(
    before: TaffyLayoutEngine<M>,
    after: TaffyLayoutEngine<M>,
    arith: &A,
    value: spec_fn(Scalar) -> Option<int>,
    range: spec_fn(Scalar) -> bool,
    style: Style,
    rem_size: Pixels,
    scale_factor: Scalar,
    children: Seq<LayoutId>,
    context: Option<NodeContext<M>>,
    id: LayoutId,
)
    requires
        rounds_to_whole_numbers(arith, value, range, scale_factor),
        style.every_absolute_length(
            |length: AbsoluteLength| is_surely(arith, length, rem_size, range),
        ),
        before.gains_node(
            after,
            arith,
            style,
            rem_size,
            scale_factor,
            children,
            context,
            id,
        ),
    ensures
        after.taffy.at(id).style.is_whole(value),
{
    lemma_styles_are_whole(
        arith,
        value,
        range,
        style,
        rem_size,
        scale_factor,
        after.taffy.at(id).style,
    );
}

/// Stretching keeps all lengths of a node whole numbers of device pixels.
pub proof fn lemma_stretched_node_stays_whole<M, A: Arithmetic>(
    before: TaffyLayoutEngine<M>,
    after: TaffyLayoutEngine<M>,
    arith: &A,
    value: spec_fn(Scalar) -> Option<int>,
    range: spec_fn(Scalar) -> bool,
    id: LayoutId,
    size: Size<Pixels>,
    scale_factor: Scalar,
)
    requires
        rounds_to_whole_numbers(arith, value, range, scale_factor),
        range(size.width.0),
        range(size.height.0),
        before.taffy.at(id).style.is_whole(value),
        before.is_stretched_to_fill(after, arith, id, size, scale_factor),
    ensures
        after.taffy.at(id).style.is_whole(value),
{
}

/// Requesting a leaf without a baseline is requesting it with one that is never
/// there: both give the same identifier, the same engine and the same node but
/// for how it takes a baseline, and whatever a measurement tells, the leaf is
/// laid out as if it had told the size and no baseline.
pub proof fn lemma_size_only_leaf_is_one_without_baseline<M, A: Arithmetic>(
    before: TaffyLayoutEngine<M>,
    size_only: TaffyLayoutEngine<M>,
    with_baseline: TaffyLayoutEngine<M>,
    arith: &A,
    style: Style,
    rem_size: Pixels,
    scale_factor: Scalar,
    measure: M,
    id: LayoutId,
    other_id: LayoutId,
)
    requires
        maps_lengths_one_way(arith),
        before.gains_node(
            size_only,
            arith,
            style,
            rem_size,
            scale_factor,
            Seq::empty(),
            Some(NodeContext { measure, reports_baseline: false }),
            id,
        ),
        before.gains_node(
            with_baseline,
            arith,
            style,
            rem_size,
            scale_factor,
            Seq::empty(),
            Some(NodeContext { measure, reports_baseline: true }),
            other_id,
        ),
    ensures
        id == other_id,
        size_only.remembers_as(with_baseline),
        size_only.kin() == with_baseline.kin(),
        forall|i: int|
            0 <= i < before.taffy.nodes@.len() ==> #[trigger] size_only.taffy.nodes@[i]
                == with_baseline.taffy.nodes@[i],
        ({
            let one = size_only.taffy.at(id);
            let other = with_baseline.taffy.at(id);
            &&& same_layout_style(one.style, other.style)
            &&& one.calc_lengths@ == other.calc_lengths@
            &&& one.children@ == other.children@
            &&& one.layout == other.layout
            &&& occupied_slots(one.cache) == occupied_slots(other.cache)
        }),
        forall|size: Size<Pixels>, baseline: Option<Pixels>|
            #[trigger] size_only.taffy.measured_layout(id, (size, baseline))
                == with_baseline.taffy.measured_layout(id, (size, None)),
{
    lemma_styles_map_one_way(
        arith,
        style,
        rem_size,
        scale_factor,
        size_only.taffy.at(id).style,
        with_baseline.taffy.at(id).style,
    );
    assert forall|i: int| 0 <= i < before.taffy.nodes@.len() implies #[trigger] size_only.taffy.nodes@[i]
        == with_baseline.taffy.nodes@[i] by {
        assert(same_but_parent(before.taffy.nodes@[i], size_only.taffy.nodes@[i]));
        assert(same_but_parent(before.taffy.nodes@[i], with_baseline.taffy.nodes@[i]));
        assert(size_only.kin()[i] == size_only.taffy.nodes@[i].kin());
        assert(with_baseline.kin()[i] == with_baseline.taffy.nodes@[i].kin());
    }
}

/// A node that was stretched has no `auto` dimension left, so that stretching it
/// a second time, to whatever size, changes nothing.
pub proof fn lemma_stretching_again_changes_nothing<M, A: Arithmetic>(
    before: TaffyLayoutEngine<M>,
    stretched: TaffyLayoutEngine<M>,
    again: TaffyLayoutEngine<M>,
    arith: &A,
    id: LayoutId,
    size: Size<Pixels>,
    scale_factor: Scalar,
    other_size: Size<Pixels>,
    other_scale_factor: Scalar,
)
    requires
        before.is_stretched_to_fill(stretched, arith, id, size, scale_factor),
        stretched.is_stretched_to_fill(again, arith, id, other_size, other_scale_factor),
    ensures
        !(stretched.taffy.at(id).style.size.width is Auto),
        !(stretched.taffy.at(id).style.size.height is Auto),
        again == stretched,
{
}

} // verus!

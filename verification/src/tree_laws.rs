//! What operations do to nodes, told by the links that the nodes hold.

use vstd::prelude::*;
use vstd::std_specs::convert::FromSpec;

use crate::cache::occupied_slots;
use crate::engine::TaffyLayoutEngine;
use crate::geometry::Size;
use crate::inspection::{as_links, noted, DepthNote};
use crate::kinship::{
    arrivals, arrivals_with, children_precede, count_below, count_with, edges_below, edges_with,
    height, height_of_all, is_self_or_ancestor, is_self_or_descendant, is_unknown_up_to,
    lemma_ancestor_step, lemma_child_is_descendant, lemma_descent_is_transitive,
    lemma_unknown_is_ancestor, Arrival, Kin,
};
use crate::layout_style::{Dimension, LayoutStyle};
use crate::number::{Arithmetic, CalcLength, Pixels, Scalar};
use crate::reading::{is_faithful, is_nearest_whole, Reading};
use crate::run::{algorithm_for, is_calc_value, keeps_calc};
use crate::style::{calcs_among, lemma_calcs_among_contains, Display, Length, Style};
use crate::to_taffy::ToTaffy;
use crate::tree::{
    indices, same_but_cache, same_but_parent, same_but_style_and_cache, GpuiTaffyTree, Layout,
    LayoutId, LayoutNode, NodeContext,
};

verus! {

/// An identifier stands for the index that it was made from.
pub proof fn lemma_identifiers_stand_for_indices(index: u64, id: LayoutId)
    ensures
        <u64 as FromSpec<LayoutId>>::from_spec(<LayoutId as FromSpec<u64>>::from_spec(index))
            == index,
        <LayoutId as FromSpec<u64>>::from_spec(<u64 as FromSpec<LayoutId>>::from_spec(id)) == id,
        <LayoutId as FromSpec<u64>>::from_spec(index).0 == index,
{
}

/// Nodes that differ in nothing but some parts are the same once those parts are
/// exchanged.
pub proof fn lemma_nodes_differ_in_no_other_part<M>(a: LayoutNode<M>, b: LayoutNode<M>)
    ensures
        same_but_parent(a, b) ==> a == (LayoutNode { parent: a.parent, ..b }),
        same_but_cache(a, b) ==> a == (LayoutNode { cache: a.cache, ..b }),
        same_but_style_and_cache(a, b) ==> a == (LayoutNode {
            style: a.style,
            cache: a.cache,
            ..b
        }),
{
}

/// `way` leads from node to parent, step by step.
pub open spec fn is_way_up<M>(nodes: Seq<LayoutNode<M>>, way: Seq<int>) -> bool {
    &&& way.len() > 0
    &&& forall|i: int| 0 <= i < way.len() ==> 0 <= #[trigger] way[i] < nodes.len()
    &&& forall|i: int|
        0 <= i < way.len() - 1 ==> nodes[#[trigger] way[i]].parent == Some(
            LayoutId(way[i + 1] as u64),
        )
}

/// `way` leads from node to child, step by step.
pub open spec fn is_way_down<M>(nodes: Seq<LayoutNode<M>>, way: Seq<int>) -> bool {
    &&& way.len() > 0
    &&& forall|i: int| 0 <= i < way.len() ==> 0 <= #[trigger] way[i] < nodes.len()
    &&& forall|i: int|
        0 <= i < way.len() - 1 ==> nodes[#[trigger] way[i]].children@.contains(
            LayoutId(way[i + 1] as u64),
        )
}

/// Some way up leads from one node to another.
pub open spec fn leads_up<M>(nodes: Seq<LayoutNode<M>>, from: int, to: int) -> bool {
    exists|way: Seq<int>| #[trigger] is_way_up(nodes, way) && way[0] == from && way.last() == to
}

/// Some way down leads from one node to another.
pub open spec fn leads_down<M>(nodes: Seq<LayoutNode<M>>, from: int, to: int) -> bool {
    exists|way: Seq<int>| #[trigger] is_way_down(nodes, way) && way[0] == from && way.last() == to
}

/// The nodes above a node are those that ways up lead to.
pub proof fn lemma_ancestors_are_on_the_way_up<M>(tree: GpuiTaffyTree<M>, id: int, above: int)
    requires
        tree.wf(),
        0 <= id < tree.nodes@.len(),
    ensures
        is_self_or_ancestor(tree.kin(), id, above) <==> leads_up(tree.nodes@, id, above),
{
    if is_self_or_ancestor(tree.kin(), id, above) {
        lemma_way_to_ancestor(tree, id, above);
    }
    if leads_up(tree.nodes@, id, above) {
        let way = choose|way: Seq<int>| #[trigger]
            is_way_up(tree.nodes@, way) && way[0] == id && way.last() == above;
        lemma_way_up_is_ancestry(tree, way, way.len() - 1);
    }
}

proof fn lemma_way_to_ancestor<M>(tree: GpuiTaffyTree<M>, id: int, above: int)
    requires
        tree.wf(),
        0 <= id < tree.nodes@.len(),
        is_self_or_ancestor(tree.kin(), id, above),
    ensures
        leads_up(tree.nodes@, id, above),
    decreases tree.nodes@.len() - id,
{
    if id == above {
        let way = seq![id];
        assert(is_way_up(tree.nodes@, way) && way[0] == id && way.last() == above);
    } else {
        let kin = tree.kin();
        assert(kin[id] == tree.nodes@[id].kin());
        let p = kin[id].parent->0 as int;
        lemma_way_to_ancestor(tree, p, above);
        let rest = choose|way: Seq<int>| #[trigger]
            is_way_up(tree.nodes@, way) && way[0] == p && way.last() == above;
        let way = seq![id] + rest;
        assert forall|i: int| 0 <= i < way.len() implies 0 <= #[trigger] way[i]
            < tree.nodes@.len() by {
            if i > 0 {
                assert(way[i] == rest[i - 1]);
            }
        }
        assert forall|i: int| 0 <= i < way.len() - 1 implies tree.nodes@[
            #[trigger] way[i]
        ].parent == Some(LayoutId(way[i + 1] as u64)) by {
            assert(way[i + 1] == rest[i]);
            if i > 0 {
                assert(way[i] == rest[i - 1]);
            }
        }
        assert(way.last() == rest.last());
        assert(is_way_up(tree.nodes@, way));
    }
}

proof fn lemma_way_up_is_ancestry<M>(tree: GpuiTaffyTree<M>, way: Seq<int>, n: int)
    requires
        tree.wf(),
        is_way_up(tree.nodes@, way),
        0 <= n < way.len(),
    ensures
        is_self_or_ancestor(tree.kin(), way[0], way[n]),
    decreases n,
{
    if n > 0 {
        lemma_way_up_is_ancestry(tree, way, n - 1);
        let kin = tree.kin();
        assert(0 <= way[n - 1] < tree.nodes@.len() && 0 <= way[n] < tree.nodes@.len());
        assert(0 <= way[0] < tree.nodes@.len());
        assert(kin[way[n - 1]] == tree.nodes@[way[n - 1]].kin());
        assert(tree.nodes.len() == tree.nodes@.len());
        lemma_ancestor_step(kin, way[0], way[n - 1]);
    }
}

/// The nodes below a node are those that ways down lead to.
pub proof fn lemma_descendants_are_on_the_way_down<M>(tree: GpuiTaffyTree<M>, id: int, below: int)
    requires
        tree.wf(),
        0 <= id < tree.nodes@.len(),
    ensures
        is_self_or_descendant(tree.kin(), id, below) <==> leads_down(tree.nodes@, id, below),
{
    if is_self_or_descendant(tree.kin(), id, below) {
        lemma_way_to_descendant(tree, id, below);
    }
    if leads_down(tree.nodes@, id, below) {
        let way = choose|way: Seq<int>| #[trigger]
            is_way_down(tree.nodes@, way) && way[0] == id && way.last() == below;
        lemma_way_down_is_descent(tree, way, way.len() - 1);
    }
}

proof fn lemma_way_to_descendant<M>(tree: GpuiTaffyTree<M>, id: int, below: int)
    requires
        tree.wf(),
        0 <= id < tree.nodes@.len(),
        is_self_or_descendant(tree.kin(), id, below),
    ensures
        leads_down(tree.nodes@, id, below),
    decreases id,
{
    if id == below {
        let way = seq![id];
        assert(is_way_down(tree.nodes@, way) && way[0] == id && way.last() == below);
    } else {
        let kin = tree.kin();
        assert(kin[id] == tree.nodes@[id].kin());
        let k = choose|k: int|
            0 <= k < kin[id].children.len() && #[trigger] kin[id].children[k] < id
                && is_self_or_descendant(kin, kin[id].children[k] as int, below);
        let child = kin[id].children[k] as int;
        lemma_way_to_descendant(tree, child, below);
        let rest = choose|way: Seq<int>| #[trigger]
            is_way_down(tree.nodes@, way) && way[0] == child && way.last() == below;
        let way = seq![id] + rest;
        assert(tree.nodes@[id].children@[k] == LayoutId(child as u64));
        assert forall|i: int| 0 <= i < way.len() implies 0 <= #[trigger] way[i]
            < tree.nodes@.len() by {
            if i > 0 {
                assert(way[i] == rest[i - 1]);
            }
        }
        assert forall|i: int| 0 <= i < way.len() - 1 implies tree.nodes@[
            #[trigger] way[i]
        ].children@.contains(LayoutId(way[i + 1] as u64)) by {
            assert(way[i + 1] == rest[i]);
            if i > 0 {
                assert(way[i] == rest[i - 1]);
            }
        }
        assert(way.last() == rest.last());
        assert(is_way_down(tree.nodes@, way));
    }
}

proof fn lemma_way_down_is_descent<M>(tree: GpuiTaffyTree<M>, way: Seq<int>, n: int)
    requires
        tree.wf(),
        is_way_down(tree.nodes@, way),
        0 <= n < way.len(),
    ensures
        is_self_or_descendant(tree.kin(), way[0], way[n]),
    decreases n,
{
    if n > 0 {
        lemma_way_down_is_descent(tree, way, n - 1);
        let kin = tree.kin();
        let (a, b) = (way[n - 1], way[n]);
        assert(0 <= a < tree.nodes@.len() && 0 <= b < tree.nodes@.len());
        assert(tree.nodes.len() == tree.nodes@.len());
        assert(kin[a] == tree.nodes@[a].kin());
        let children = tree.nodes@[a].children@;
        let k = choose|k: int| 0 <= k < children.len() && children[k] == LayoutId(b as u64);
        assert(kin[a].children[k] == b);
        assert(is_self_or_descendant(kin, b, b));
        lemma_child_is_descendant(kin, a, k, b);
        lemma_descent_is_transitive(kin, way[0], a, b);
    }
}

/// When a node gets a new style, every node on the ways up from it loses its
/// cached results, a node that no way up leads to is not touched, and nothing but
/// that style and those caches changes.
pub proof fn lemma_restyling_drops_caches_on_the_way_up<M>(
    before: GpuiTaffyTree<M>,
    after: GpuiTaffyTree<M>,
    id: LayoutId,
    style: LayoutStyle,
    i: int,
)
    requires
        before.wf(),
        before.has(id),
        before.is_restyled(after, id, style),
        0 <= i < before.nodes@.len(),
    ensures
        after.nodes@.len() == before.nodes@.len(),
        leads_up(before.nodes@, id.0 as int, i) ==> occupied_slots(after.nodes@[i].cache) == Set::<
            nat,
        >::empty(),
        !leads_up(before.nodes@, id.0 as int, i) ==> after.nodes@[i] == before.nodes@[i],
        after.nodes@[i].style == (if i == id.0 {
            style
        } else {
            before.nodes@[i].style
        }),
        after.nodes@[i].calc_lengths == before.nodes@[i].calc_lengths,
        after.nodes@[i].children == before.nodes@[i].children,
        after.nodes@[i].parent == before.nodes@[i].parent,
        after.nodes@[i].context == before.nodes@[i].context,
        after.nodes@[i].layout == before.nodes@[i].layout,
{
    lemma_ancestors_are_on_the_way_up(before, id.0 as int, i);
    assert(before.nodes@[i] == before.nodes@[i]);
    if i == id.0 {
        assert(after.at(id) == after.nodes@[i]);
    }
}

/// Stretching keeps what was styled explicitly: whatever the size to fill and the
/// scale factor, a dimension that was a length, a percentage or a calc expression
/// is what it was, and where both were, no style and no cache is touched.
pub proof fn lemma_stretching_keeps_explicit_dimensions<M, A: Arithmetic>(
    before: TaffyLayoutEngine<M>,
    after: TaffyLayoutEngine<M>,
    arith: &A,
    id: LayoutId,
    size: Size<Pixels>,
    scale_factor: Scalar,
)
    requires
        before.taffy.wf(),
        before.taffy.has(id),
        before.is_stretched_to_fill(after, arith, id, size, scale_factor),
    ensures
        ({
            let styled = before.taffy.at(id).style.size;
            let stretched = after.taffy.at(id).style.size;
            &&& styled.width != Dimension::Auto ==> stretched.width == styled.width
            &&& styled.height != Dimension::Auto ==> stretched.height == styled.height
            &&& styled.width != Dimension::Auto && styled.height != Dimension::Auto ==> after.taffy
                == before.taffy
        }),
        after.taffy.at(id).style == (LayoutStyle {
            size: after.taffy.at(id).style.size,
            ..before.taffy.at(id).style
        }),
        forall|i: int|
            0 <= i < before.taffy.nodes@.len() && i != id.0 ==> (
            #[trigger] after.taffy.nodes@[i]).style == before.taffy.nodes@[i].style,
        after.absolute_layout_bounds == before.absolute_layout_bounds,
        after.absolute_outer_origins == before.absolute_outer_origins,
        after.computed_layouts == before.computed_layouts,
        after.layout_bounds_scratch_space == before.layout_bounds_scratch_space,
{
    let style = after.taffy.at(id).style;
    if after.taffy != before.taffy {
        assert forall|i: int| 0 <= i < before.taffy.nodes@.len() && i != id.0 implies (
        #[trigger] after.taffy.nodes@[i]).style == before.taffy.nodes@[i].style by {
            lemma_restyling_drops_caches_on_the_way_up(before.taffy, after.taffy, id, style, i);
        }
    }
}

/// Stretching fills: an `auto` dimension becomes the integer of device pixels that
/// is nearest to the extent to fill on the same axis, and the nodes whose layout
/// depends on it lose their cached results.
pub proof fn lemma_stretching_fills_auto_dimensions<M, A: Arithmetic>(
    before: TaffyLayoutEngine<M>,
    after: TaffyLayoutEngine<M>,
    arith: &A,
    q: Reading,
    id: LayoutId,
    size: Size<Pixels>,
    scale_factor: Scalar,
    i: int,
)
    requires
        is_faithful(arith, q),
        before.taffy.wf(),
        before.taffy.has(id),
        before.is_stretched_to_fill(after, arith, id, size, scale_factor),
        before.taffy.at(id).style.size.width is Auto
            || before.taffy.at(id).style.size.height is Auto,
        0 <= i < before.taffy.nodes@.len(),
    ensures
        before.taffy.at(id).style.size.width is Auto ==> fills(
            q,
            size.width,
            scale_factor,
            after.taffy.at(id).style.size.width,
        ),
        before.taffy.at(id).style.size.height is Auto ==> fills(
            q,
            size.height,
            scale_factor,
            after.taffy.at(id).style.size.height,
        ),
        leads_up(before.taffy.nodes@, id.0 as int, i) ==> occupied_slots(
            after.taffy.nodes@[i].cache,
        ) == Set::<nat>::empty(),
        !leads_up(before.taffy.nodes@, id.0 as int, i) ==> after.taffy.nodes@[i]
            == before.taffy.nodes@[i],
{
    let style = after.taffy.at(id).style;
    lemma_restyling_drops_caches_on_the_way_up(before.taffy, after.taffy, id, style, i);
}

/// A dimension is the integer of device pixels that is nearest to an extent.
pub open spec fn fills(q: Reading, extent: Pixels, scale_factor: Scalar, r: Dimension) -> bool {
    &&& r is Length
    &&& q.has(extent.0) && q.has(scale_factor) && (q.fits)(q.of(extent.0) * q.of(scale_factor))
        ==> q.has(r->Length_0) && is_nearest_whole(
        q.of(extent.0) * q.of(scale_factor),
        q.of(r->Length_0),
    )
}

/// A requested node holds what it was requested with, in a new place; it becomes
/// the parent of its children, no other node gets another parent, and no other
/// part of any node changes, nor anything that is remembered.
pub proof fn lemma_requested_node_is_as_asked<M, A: Arithmetic>(
    before: TaffyLayoutEngine<M>,
    after: TaffyLayoutEngine<M>,
    arith: &A,
    style: Style,
    rem_size: Pixels,
    scale_factor: Scalar,
    children: Seq<LayoutId>,
    context: Option<NodeContext<M>>,
    id: LayoutId,
    i: int,
)
    requires
        before.gains_node(
            after,
            arith,
            style,
            rem_size,
            scale_factor,
            children,
            context,
            id,
        ),
        0 <= i < before.taffy.nodes@.len(),
    ensures
        id.0 == before.taffy.nodes@.len(),
        after.taffy.nodes@.len() == before.taffy.nodes@.len() + 1,
        after.taffy.at(id).children@ == children,
        after.taffy.at(id).context == context,
        after.taffy.at(id).layout.location.x == Scalar::zero(),
        after.taffy.at(id).layout.location.y == Scalar::zero(),
        after.taffy.at(id).layout.size.width == Scalar::zero(),
        after.taffy.at(id).layout.size.height == Scalar::zero(),
        occupied_slots(after.taffy.at(id).cache) == Set::<nat>::empty(),
        style.maps_to(arith, rem_size, scale_factor, after.taffy.at(id).style),
        !children.contains(id) ==> after.taffy.at(id).parent is None,
        after.taffy.nodes@[i] == (LayoutNode {
            parent: if children.contains(LayoutId(i as u64)) {
                Some(id)
            } else {
                before.taffy.nodes@[i].parent
            },
            ..before.taffy.nodes@[i]
        }),
        after.absolute_layout_bounds == before.absolute_layout_bounds,
        after.absolute_outer_origins == before.absolute_outer_origins,
        after.computed_layouts == before.computed_layouts,
        after.layout_bounds_scratch_space == before.layout_bounds_scratch_space,
{
    assert(before.taffy.nodes.len() == before.taffy.nodes@.len());
    assert(same_but_parent(before.taffy.nodes@[i], after.taffy.nodes@[i]));
    let n = before.taffy.nodes@.len() as int;
    let all = indices(children);
    assert(after.kin()[i] == after.taffy.nodes@[i].kin());
    assert(before.kin()[i] == before.taffy.nodes@[i].kin());
    assert(after.kin()[n] == after.taffy.nodes@[n].kin());
    lemma_indices_hold(children, i);
    lemma_indices_hold(children, n);
    assert(children.contains(id) <==> all.contains(n as u64));
}

proof fn lemma_indices_hold(children: Seq<LayoutId>, i: int)
    requires
        0 <= i <= u64::MAX,
    ensures
        indices(children).contains(i as u64) <==> children.contains(
            LayoutId(i as u64),
        ),
{
    let all = indices(children);
    if children.contains(LayoutId(i as u64)) {
        let k = choose|k: int| 0 <= k < children.len() && children[k] == LayoutId(i as u64);
        assert(all[k] == i as u64);
    }
    if all.contains(i as u64) {
        let k = choose|k: int| 0 <= k < all.len() && all[k] == i as u64;
        assert(children[k] == LayoutId(i as u64));
    }
}

/// The expression of a length, if it is one.
pub open spec fn own_calc(length: Length) -> Seq<CalcLength> {
    match length {
        Length::Calc(value) => seq![value],
        _ => Seq::empty(),
    }
}

/// The calc expressions of a style are collected one by one, as often as they
/// occur: inset, size, least and greatest size, margin, and the flex basis last.
pub proof fn lemma_calcs_are_collected_in_order(style: Style)
    ensures
        calcs_among(style.calc_candidates()) == own_calc(style.inset.top) + own_calc(
            style.inset.right,
        ) + own_calc(style.inset.bottom) + own_calc(style.inset.left) + own_calc(style.size.width)
            + own_calc(style.size.height) + own_calc(style.min_size.width) + own_calc(
            style.min_size.height,
        ) + own_calc(style.max_size.width) + own_calc(style.max_size.height) + own_calc(
            style.margin.top,
        ) + own_calc(style.margin.right) + own_calc(style.margin.bottom) + own_calc(
            style.margin.left,
        ) + own_calc(style.flex_basis),
{
    let all = style.calc_candidates();
    assert(calcs_among(all.take(0)) == Seq::<CalcLength>::empty());
    lemma_next_calc_is_collected(all, 0);
    lemma_next_calc_is_collected(all, 1);
    lemma_next_calc_is_collected(all, 2);
    lemma_next_calc_is_collected(all, 3);
    lemma_next_calc_is_collected(all, 4);
    lemma_next_calc_is_collected(all, 5);
    lemma_next_calc_is_collected(all, 6);
    lemma_next_calc_is_collected(all, 7);
    lemma_next_calc_is_collected(all, 8);
    lemma_next_calc_is_collected(all, 9);
    lemma_next_calc_is_collected(all, 10);
    lemma_next_calc_is_collected(all, 11);
    lemma_next_calc_is_collected(all, 12);
    lemma_next_calc_is_collected(all, 13);
    lemma_next_calc_is_collected(all, 14);
    assert(calcs_among(all.take(1)) =~= own_calc(style.inset.top));
    assert(all.take(15) =~= all);
}

proof fn lemma_next_calc_is_collected(all: Seq<Length>, i: int)
    requires
        0 <= i < all.len(),
    ensures
        calcs_among(all.take(i + 1)) == calcs_among(all.take(i)) + own_calc(all[i]),
{
    assert(all.take(i + 1).drop_last() =~= all.take(i));
    assert(all.take(i + 1).last() == all[i]);
    assert(calcs_among(all.take(i + 1)) =~= calcs_among(all.take(i)) + own_calc(all[i]));
}

/// No calc expression of a style is left out: a requested node keeps the one of
/// every side, size and flex basis that has one.
pub proof fn lemma_every_calc_is_kept<M, A: Arithmetic>(
    before: TaffyLayoutEngine<M>,
    after: TaffyLayoutEngine<M>,
    arith: &A,
    style: Style,
    rem_size: Pixels,
    scale_factor: Scalar,
    children: Seq<LayoutId>,
    context: Option<NodeContext<M>>,
    id: LayoutId,
    value: CalcLength,
)
    requires
        before.gains_node(
            after,
            arith,
            style,
            rem_size,
            scale_factor,
            children,
            context,
            id,
        ),
    ensures
        after.taffy.at(id).calc_lengths@.contains(value) <==> {
            let calc = Length::Calc(value);
            ||| style.inset.top == calc
            ||| style.inset.right == calc
            ||| style.inset.bottom == calc
            ||| style.inset.left == calc
            ||| style.size.width == calc
            ||| style.size.height == calc
            ||| style.min_size.width == calc
            ||| style.min_size.height == calc
            ||| style.max_size.width == calc
            ||| style.max_size.height == calc
            ||| style.margin.top == calc
            ||| style.margin.right == calc
            ||| style.margin.bottom == calc
            ||| style.margin.left == calc
            ||| style.flex_basis == calc
        },
        after.taffy.at(id).calc_lengths@.contains(value) ==> keeps_calc(
            after.taffy.nodes@,
            value.handle,
        ),
        keeps_calc(before.taffy.nodes@, value.handle) ==> keeps_calc(
            after.taffy.nodes@,
            value.handle,
        ),
        keeps_calc(after.taffy.nodes@, value.handle) ==> keeps_calc(
            before.taffy.nodes@,
            value.handle,
        ) || after.taffy.at(id).calc_lengths@.contains(value),
{
    let lengths = style.calc_candidates();
    let calc = Length::Calc(value);
    lemma_calcs_among_contains(lengths, value);
    assert(lengths.len() == 15);
    assert(lengths[0] == style.inset.top);
    assert(lengths[1] == style.inset.right);
    assert(lengths[2] == style.inset.bottom);
    assert(lengths[3] == style.inset.left);
    assert(lengths[4] == style.size.width);
    assert(lengths[5] == style.size.height);
    assert(lengths[6] == style.min_size.width);
    assert(lengths[7] == style.min_size.height);
    assert(lengths[8] == style.max_size.width);
    assert(lengths[9] == style.max_size.height);
    assert(lengths[10] == style.margin.top);
    assert(lengths[11] == style.margin.right);
    assert(lengths[12] == style.margin.bottom);
    assert(lengths[13] == style.margin.left);
    assert(lengths[14] == style.flex_basis);
    if lengths.contains(calc) {
        let k = choose|k: int| 0 <= k < 15 && lengths[k] == calc;
        assert(lengths[k] == calc);
    }
    let (old_nodes, nodes) = (before.taffy.nodes@, after.taffy.nodes@);
    assert(CalcLength { handle: value.handle } == value);
    assert(nodes[id.0 as int] == after.taffy.at(id));
    if keeps_calc(old_nodes, value.handle) {
        let i = choose|i: int|
            0 <= i < old_nodes.len() && (#[trigger] old_nodes[i]).calc_lengths@.contains(value);
        assert(same_but_parent(old_nodes[i], nodes[i]));
        assert(nodes[i].calc_lengths@.contains(value));
    }
    if keeps_calc(nodes, value.handle) {
        let i = choose|i: int|
            0 <= i < nodes.len() && (#[trigger] nodes[i]).calc_lengths@.contains(value);
        if i < old_nodes.len() {
            assert(same_but_parent(old_nodes[i], nodes[i]));
            assert(old_nodes[i].calc_lengths@.contains(value));
        }
    }
}

/// When layout is computed again from a root, what was remembered of the nodes
/// that ways down from it lead to is forgotten, and nothing else; the first time
/// nothing is. No node changes.
pub proof fn lemma_relayout_forgets_what_is_below<M>(
    before: TaffyLayoutEngine<M>,
    after: TaffyLayoutEngine<M>,
    root: LayoutId,
    k: u64,
)
    requires
        before.wf(),
        before.taffy.has(root),
        before.is_about_to_lay_out(after, root),
    ensures
        after.taffy == before.taffy,
        after.computed_layouts@.contains(k) <==> before.computed_layouts@.contains(k) || k
            == root.0,
        before.computed_layouts@.contains(root.0) && leads_down(
            before.taffy.nodes@,
            root.0 as int,
            k as int,
        ) ==> !after.absolute_layout_bounds@.contains_key(k),
        !before.computed_layouts@.contains(root.0) || !leads_down(
            before.taffy.nodes@,
            root.0 as int,
            k as int,
        ) ==> {
            &&& after.absolute_layout_bounds@.contains_key(k)
                <==> before.absolute_layout_bounds@.contains_key(k)
            &&& before.absolute_layout_bounds@.contains_key(k) ==> {
                &&& after.absolute_layout_bounds@[k] == before.absolute_layout_bounds@[k]
                &&& after.absolute_outer_origins@[k] == before.absolute_outer_origins@[k]
            }
        },
{
    lemma_descendants_are_on_the_way_down(before.taffy, root.0 as int, k as int);
    assert(after.known().contains(k) <==> after.absolute_layout_bounds@.contains_key(k));
    assert(before.known().contains(k) <==> before.absolute_layout_bounds@.contains_key(k));
}

/// Asking for the bounds of a node forgets nothing and changes nothing that is
/// remembered; what is learned is learned of nodes that ways up lead to, each
/// together with its parent, and the node itself is known afterwards.
pub proof fn lemma_asking_learns_on_the_way_up<M, A: Arithmetic>(
    before: TaffyLayoutEngine<M>,
    after: TaffyLayoutEngine<M>,
    arith: &A,
    id: LayoutId,
    scale_factor: Scalar,
    k: u64,
)
    requires
        before.wf(),
        after.wf(),
        before.taffy.has(id),
        before.is_asked_for(after, arith, id, scale_factor),
    ensures
        after.taffy == before.taffy,
        after.computed_layouts == before.computed_layouts,
        after.absolute_layout_bounds@.contains_key(id.0),
        before.absolute_layout_bounds@.contains_key(k) ==> {
            &&& after.absolute_layout_bounds@.contains_key(k)
            &&& after.absolute_layout_bounds@[k] == before.absolute_layout_bounds@[k]
            &&& after.absolute_outer_origins@[k] == before.absolute_outer_origins@[k]
        },
        after.absolute_layout_bounds@.contains_key(k)
            && !before.absolute_layout_bounds@.contains_key(k) ==> {
            &&& leads_up(before.taffy.nodes@, id.0 as int, k as int)
            &&& before.taffy.nodes@[k as int].parent matches Some(parent)
                ==> after.absolute_layout_bounds@.contains_key(parent.0)
        },
        before.absolute_layout_bounds@.contains_key(id.0) ==> (
        after.absolute_layout_bounds@.contains_key(k)
            <==> before.absolute_layout_bounds@.contains_key(k)),
{
    let kin = before.kin();
    assert(after.known().contains(k) <==> after.absolute_layout_bounds@.contains_key(k));
    assert(before.known().contains(k) <==> before.absolute_layout_bounds@.contains_key(k));
    assert(after.known().contains(id.0) <==> after.absolute_layout_bounds@.contains_key(id.0));
    assert(before.known().contains(id.0) <==> before.absolute_layout_bounds@.contains_key(id.0));
    assert(is_unknown_up_to(kin, before.known(), id.0 as int, id.0 as int)
        <==> !before.known().contains(id.0));
    if after.known().contains(k) && !before.known().contains(k) {
        lemma_unknown_is_ancestor(kin, before.known(), id.0 as int, k as int);
        lemma_ancestors_are_on_the_way_up(before.taffy, id.0 as int, k as int);
        assert(after.is_placed(arith, scale_factor, k));
        if let Some(parent) = before.taffy.nodes@[k as int].parent {
            assert(after.absolute_outer_origins@.contains_key(parent.0));
            assert(after.absolute_layout_bounds@.dom().contains(parent.0));
        }
    }
}

/// A calc expression is worth what the arithmetic gives for the basis and the
/// scale factor that were asked for, with rems of sixteen pixels, as long as some
/// node keeps it, whichever does; otherwise it is worth nothing.
pub proof fn lemma_calcs_are_worth_what_they_say<M, A: Arithmetic>(
    arith: &A,
    nodes: Seq<LayoutNode<M>>,
    handle: u64,
    basis: Scalar,
    scale_factor: Scalar,
    r: Scalar,
)
    requires
        is_calc_value(arith, nodes, handle, basis, scale_factor, r),
    ensures
        forall|i: int|
            0 <= i < nodes.len() && (#[trigger] nodes[i]).calc_lengths@.contains(
                CalcLength { handle },
            ) ==> call_ensures(
                A::resolve_calc,
                (
                    arith,
                    CalcLength { handle },
                    basis,
                    Pixels(Scalar { bits: 0x4180_0000 }),
                    scale_factor,
                ),
                r,
            ),
        (forall|i: int|
            0 <= i < nodes.len() ==> !(#[trigger] nodes[i]).calc_lengths@.contains(
                CalcLength { handle },
            )) ==> r.bits == 0,
{
}

/// Laying out a node notes its layout, and nothing else changes; dropping the
/// cached results of a node drops those, and nothing else changes.
pub proof fn lemma_noting_a_layout_changes_nothing_else<M>(
    before: GpuiTaffyTree<M>,
    after: GpuiTaffyTree<M>,
    id: LayoutId,
    layout: Layout,
    i: int,
)
    requires
        before.has(id),
        0 <= i < before.nodes@.len(),
    ensures
        before.is_laid_out(after, id, layout) ==> {
            &&& after.nodes@.len() == before.nodes@.len()
            &&& after.nodes@[id.0 as int].layout.location.x == layout.location.x
            &&& after.nodes@[id.0 as int].layout.location.y == layout.location.y
            &&& after.nodes@[id.0 as int].layout.size.width == layout.size.width
            &&& after.nodes@[id.0 as int].layout.size.height == layout.size.height
            &&& i != id.0 ==> after.nodes@[i] == before.nodes@[i]
            &&& (LayoutNode { layout: before.nodes@[i].layout, ..after.nodes@[i] })
                == before.nodes@[i]
        },
        before.is_uncached(after, id) ==> {
            &&& after.nodes@.len() == before.nodes@.len()
            &&& occupied_slots(after.nodes@[id.0 as int].cache) == Set::<nat>::empty()
            &&& i != id.0 ==> after.nodes@[i] == before.nodes@[i]
            &&& (LayoutNode { cache: before.nodes@[i].cache, ..after.nodes@[i] })
                == before.nodes@[i]
        },
{
    if before.is_uncached(after, id) {
        assert(after.at(id) == after.nodes@[id.0 as int]);
    }
}

/// A node is hidden exactly if its style says so, a leaf exactly if it is shown
/// and has no children, and containers with different styles are laid out by
/// different algorithms.
pub proof fn lemma_algorithms_follow_display(display: Display, other: Display, has_children: bool)
    ensures
        algorithm_for(display, has_children) is Hidden <==> display == Display::Hidden,
        algorithm_for(display, has_children) is Leaf <==> display != Display::Hidden
            && !has_children,
        algorithm_for(display, true) == algorithm_for(other, true) ==> display == other,
        algorithm_for(display, has_children) is Block ==> display == Display::Block,
        algorithm_for(display, has_children) is FlowRoot ==> display == Display::FlowRoot,
        algorithm_for(display, has_children) is Flex ==> display == Display::Flex,
        algorithm_for(display, has_children) is Grid ==> display == Display::Grid,
{
}

/// What is listed of a walk is told as it is: links from holder to child, and
/// notes with their node, depth and number of children.
pub proof fn lemma_lists_tell_what_they_hold(
    edges: Seq<(LayoutId, LayoutId)>,
    notes: Seq<DepthNote>,
    k: int,
)
    ensures
        as_links(edges).len() == edges.len(),
        noted(notes).len() == notes.len(),
        0 <= k < edges.len() ==> {
            &&& as_links(edges)[k].0 == (edges[k].0).0
            &&& as_links(edges)[k].1 == (edges[k].1).0
        },
        0 <= k < notes.len() ==> {
            &&& noted(notes)[k].node == notes[k].node.0
            &&& noted(notes)[k].depth == notes[k].depth
            &&& noted(notes)[k].children == notes[k].children
        },
{
}

/// The number of nodes on the longest way down is one for a leaf, and otherwise
/// one more than that of the child with the longest.
pub proof fn lemma_height_is_one_more_than_below(kin: Seq<Kin>, id: nat, k: int)
    requires
        children_precede(kin),
        id < kin.len(),
    ensures
        kin[id as int].children.len() == 0 ==> height(kin, id) == 1,
        0 <= k < kin[id as int].children.len() ==> height(
            kin,
            kin[id as int].children[k] as nat,
        ) < height(kin, id),
        kin[id as int].children.len() > 0 ==> exists|j: int|
            0 <= j < kin[id as int].children.len() && height(
                kin,
                #[trigger] kin[id as int].children[j] as nat,
            ) + 1 == height(kin, id),
{
    let children = kin[id as int].children;
    assert forall|j: int| 0 <= j < children.len() implies #[trigger] children[j] < id by {
        assert(kin[id as int].children[j] < id);
    }
    lemma_height_of_all(kin, children, id);
    if children.len() > 0 {
        let j = choose|j: int|
            0 <= j < children.len() && height(kin, #[trigger] children[j] as nat) == height_of_all(
                kin,
                children,
                id,
            );
        assert(height(kin, kin[id as int].children[j] as nat) + 1 == height(kin, id));
    }
}

proof fn lemma_height_of_all(kin: Seq<Kin>, children: Seq<u64>, bound: nat)
    requires
        forall|j: int| 0 <= j < children.len() ==> #[trigger] children[j] < bound,
    ensures
        forall|j: int|
            0 <= j < children.len() ==> height(kin, #[trigger] children[j] as nat)
                <= height_of_all(kin, children, bound),
        children.len() > 0 ==> exists|j: int|
            0 <= j < children.len() && height(kin, #[trigger] children[j] as nat) == height_of_all(
                kin,
                children,
                bound,
            ),
    decreases children.len(),
{
    if children.len() > 0 {
        let init = children.drop_last();
        let n = children.len() - 1;
        assert(children[n] == children.last());
        assert(forall|j: int| 0 <= j < init.len() ==> init[j] == children[j]);
        lemma_height_of_all(kin, init, bound);
        assert forall|j: int| 0 <= j < children.len() implies height(
            kin,
            #[trigger] children[j] as nat,
        ) <= height_of_all(kin, children, bound) by {
            if j < n {
                assert(height(kin, init[j] as nat) <= height_of_all(kin, init, bound));
            }
        }
        if height_of_all(kin, init, bound) >= height(kin, children.last() as nat) && init.len()
            > 0 {
            let j = choose|j: int|
                0 <= j < init.len() && height(kin, #[trigger] init[j] as nat) == height_of_all(
                    kin,
                    init,
                    bound,
                );
            assert(height(kin, children[j] as nat) == height_of_all(kin, children, bound));
        } else {
            assert(height(kin, children[n] as nat) == height_of_all(kin, children, bound));
        }
    }
}

/// A walk over two lists of children is the walk over the first and then the one
/// over the second: it counts, lists and notes what both do, in that order.
pub proof fn lemma_walks_follow_each_other(kin: Seq<Kin>, one: Seq<u64>, other: Seq<u64>, id: nat)
    ensures
        count_with(kin, one + other, id) == count_with(kin, one, id) + count_with(kin, other, id),
        edges_with(kin, one + other, id) == edges_with(kin, one, id) + edges_with(kin, other, id),
        arrivals_with(kin, one + other, id) == arrivals_with(kin, one, id) + arrivals_with(
            kin,
            other,
            id,
        ),
    decreases other.len(),
{
    if other.len() == 0 {
        assert(one + other =~= one);
        assert(edges_with(kin, one, id) + edges_with(kin, other, id) =~= edges_with(kin, one, id));
        assert(arrivals_with(kin, one, id) + arrivals_with(kin, other, id) =~= arrivals_with(
            kin,
            one,
            id,
        ));
    } else {
        assert((one + other).drop_last() =~= one + other.drop_last());
        assert((one + other).last() == other.last());
        lemma_walks_follow_each_other(kin, one, other.drop_last(), id);
        assert(edges_with(kin, one + other, id) =~= edges_with(kin, one, id) + edges_with(
            kin,
            other,
            id,
        ));
        assert(arrivals_with(kin, one + other, id) =~= arrivals_with(kin, one, id) + arrivals_with(
            kin,
            other,
            id,
        ));
    }
}

/// A walk from a node that holds one child counts that child and what is below
/// it, follows the link to it first, and notes it after its start.
pub proof fn lemma_walk_over_one_child(kin: Seq<Kin>, id: nat, child: u64, depth: nat)
    requires
        id < kin.len(),
        child < id,
        kin[id as int].children == seq![child],
    ensures
        count_below(kin, id) == 1 + count_below(kin, child as nat),
        edges_below(kin, id) == seq![(id, child as nat)] + edges_below(kin, child as nat),
        arrivals(kin, id, depth) == seq![Arrival { node: id, depth, children: 1 }] + arrivals(
            kin,
            child as nat,
            0,
        ),
        height(kin, id) == 1 + height(kin, child as nat),
{
    let children = kin[id as int].children;
    let none = children.drop_last();
    assert(none =~= Seq::<u64>::empty());
    assert(children.last() == child);
    assert(count_with(kin, none, id) == 0);
    assert(count_with(kin, children, id) == 1 + count_below(kin, child as nat));
    assert(height_of_all(kin, none, id) == 0);
    assert(height_of_all(kin, children, id) == height(kin, child as nat));
    assert(edges_with(kin, none, id) =~= Seq::empty());
    assert(arrivals_with(kin, none, id) =~= Seq::empty());
    assert(edges_below(kin, id) =~= seq![(id, child as nat)] + edges_below(kin, child as nat));
    assert(arrivals_with(kin, children, id) =~= arrivals(kin, child as nat, 0));
}

/// The links of a walk hold the link to each child, and all links of the walk from
/// that child on.
pub proof fn lemma_edges_hold_those_below(kin: Seq<Kin>, id: nat, k: int, edge: (nat, nat))
    requires
        children_precede(kin),
        id < kin.len(),
        0 <= k < kin[id as int].children.len(),
    ensures
        edges_below(kin, id).contains((id, kin[id as int].children[k] as nat)),
        edges_below(kin, kin[id as int].children[k] as nat).contains(edge) ==> edges_below(
            kin,
            id,
        ).contains(edge),
        edges_below(kin, id)[0] == (id, kin[id as int].children[0] as nat),
{
    let children = kin[id as int].children;
    assert forall|j: int| 0 <= j < children.len() implies #[trigger] children[j] < id by {
        assert(kin[id as int].children[j] < id);
    }
    lemma_edges_with_hold(kin, children, id, k, edge);
}

proof fn lemma_edges_with_hold(
    kin: Seq<Kin>,
    children: Seq<u64>,
    id: nat,
    k: int,
    edge: (nat, nat),
)
    requires
        forall|j: int| 0 <= j < children.len() ==> #[trigger] children[j] < id,
        0 <= k < children.len(),
    ensures
        edges_with(kin, children, id).len() > 0,
        edges_with(kin, children, id)[0] == (id, children[0] as nat),
        edges_with(kin, children, id).contains((id, children[k] as nat)),
        edges_below(kin, children[k] as nat).contains(edge) ==> edges_with(
            kin,
            children,
            id,
        ).contains(edge),
    decreases children.len(),
{
    let init = children.drop_last();
    let n = children.len() - 1;
    let last = children.last() as nat;
    assert(children[n] == children.last());
    assert(forall|j: int| 0 <= j < init.len() ==> init[j] == children[j]);
    let head = edges_with(kin, init, id);
    let below = edges_below(kin, last);
    let all = edges_with(kin, children, id);
    assert(all =~= head.push((id, last)) + below);
    assert(all[head.len() as int] == (id, last));
    if init.len() > 0 {
        let j = if k < n {
            k
        } else {
            0
        };
        lemma_edges_with_hold(kin, init, id, j, edge);
        assert(all[0] == head[0]);
    } else {
        assert(head =~= Seq::empty());
    }
    if k < n {
        let link = (id, children[k] as nat);
        let a = choose|a: int| 0 <= a < head.len() && head[a] == link;
        assert(all[a] == link);
        if head.contains(edge) {
            let b = choose|b: int| 0 <= b < head.len() && head[b] == edge;
            assert(all[b] == edge);
        }
    } else if below.contains(edge) {
        let b = choose|b: int| 0 <= b < below.len() && below[b] == edge;
        assert(all[head.len() + 1 + b] == edge);
    }
}

/// A walk notes its start first and with the depth it was given; all other nodes
/// it notes with depth zero, and every node with its own number of children.
pub proof fn lemma_arrivals_are_noted_as_they_are(kin: Seq<Kin>, id: nat, depth: nat, k: int)
    requires
        children_precede(kin),
        id < kin.len(),
        0 <= k < arrivals(kin, id, depth).len(),
    ensures
        arrivals(kin, id, depth)[0] == (Arrival {
            node: id,
            depth,
            children: kin[id as int].children.len(),
        }),
        k > 0 ==> arrivals(kin, id, depth)[k].depth == 0,
        arrivals(kin, id, depth)[k].node < kin.len(),
        arrivals(kin, id, depth)[k].children
            == kin[arrivals(kin, id, depth)[k].node as int].children.len(),
    decreases id, kin[id as int].children.len() + 1,
{
    let children = kin[id as int].children;
    assert forall|j: int| 0 <= j < children.len() implies #[trigger] children[j] < id by {
        assert(kin[id as int].children[j] < id);
    }
    if k > 0 {
        lemma_arrivals_with_are_noted(kin, children, id, k - 1);
    }
}

proof fn lemma_arrivals_with_are_noted(kin: Seq<Kin>, children: Seq<u64>, bound: nat, k: int)
    requires
        children_precede(kin),
        bound <= kin.len(),
        forall|j: int| 0 <= j < children.len() ==> #[trigger] children[j] < bound,
        0 <= k < arrivals_with(kin, children, bound).len(),
    ensures
        arrivals_with(kin, children, bound)[k].depth == 0,
        arrivals_with(kin, children, bound)[k].node < kin.len(),
        arrivals_with(kin, children, bound)[k].children
            == kin[arrivals_with(kin, children, bound)[k].node as int].children.len(),
    decreases bound, children.len(),
{
    let init = children.drop_last();
    let head = arrivals_with(kin, init, bound);
    assert(children[children.len() - 1] == children.last());
    assert(forall|j: int| 0 <= j < init.len() ==> init[j] == children[j]);
    if k < head.len() {
        lemma_arrivals_with_are_noted(kin, init, bound, k);
    } else {
        lemma_arrivals_are_noted_as_they_are(kin, children.last() as nat, 0, k - head.len());
    }
}

} // verus!

//! The nodes that layout is computed for.

use vstd::prelude::*;

use crate::cache::{clear_cache, new_cache, occupied_slots};
use crate::geometry::{Point, Size};
use crate::kinship::{
    is_self_or_ancestor, lemma_ancestor_step, lemma_linked_is_well_linked, lemma_parent_is_later,
    linked, well_linked, Kin,
};
use crate::layout_style::{Dimension, LayoutStyle};
use crate::number::{CalcLength, Scalar};

verus! {

/// A unique identifier for a layout node, generated when requesting a layout.
#[derive(Clone, Copy, Debug, PartialEq, Eq, Hash, Structural)]
pub struct LayoutId(pub u64);

impl From<u64> for LayoutId {
    fn from(index: u64) -> (r: Self) {
        LayoutId(index)
    }
}

impl vstd::std_specs::convert::FromSpecImpl<u64> for LayoutId {
    open spec fn obeys_from_spec() -> bool {
        true
    }

    open spec fn from_spec(index: u64) -> Self {
        LayoutId(index)
    }
}

impl From<LayoutId> for u64 {
    fn from(id: LayoutId) -> (r: Self) {
        id.0
    }
}

impl vstd::std_specs::convert::FromSpecImpl<LayoutId> for u64 {
    open spec fn obeys_from_spec() -> bool {
        true
    }

    open spec fn from_spec(id: LayoutId) -> Self {
        id.0
    }
}

/// The indices that `ids` stand for.
pub open spec fn indices(ids: Seq<LayoutId>) -> Seq<u64> {
    ids.map_values(|id: LayoutId| id.0)
}

/// Where a node was placed, in unrounded device pixels.
#[derive(Clone, Copy, Debug, PartialEq, Eq)]
pub struct Layout {
    /// The offset from the origin of the parent.
    pub location: Point<Scalar>,
    /// The extent of the border box.
    pub size: Size<Scalar>,
}

impl Layout {
    /// The layout of a node that was not placed yet: all zero.
    pub open spec fn zero() -> Layout {
        Layout {
            location: Point { x: Scalar::zero(), y: Scalar::zero() },
            size: Size { width: Scalar::zero(), height: Scalar::zero() },
        }
    }

    /// The layout of a node that was not placed yet.
    pub fn new() -> (r: Layout)
        ensures
            r == Layout::zero(),
    {
        Layout {
            location: Point { x: Scalar::zero(), y: Scalar::zero() },
            size: Size { width: Scalar::zero(), height: Scalar::zero() },
        }
    }
}

/// How a leaf is measured.
#[derive(Debug)]
pub struct NodeContext<M> {
    /// What measures the leaf.
    pub measure: M,
    /// Whether the measurement tells where the first baseline is.
    pub reports_baseline: bool,
}

/// A node of the layout tree.
pub struct LayoutNode<M> {
    /// The style that the layout algorithms read.
    pub style: LayoutStyle,
    /// The calc expressions that `style` refers to, kept for as long as the node.
    pub calc_lengths: Vec<CalcLength>,
    /// The children, in order.
    pub children: Vec<LayoutId>,
    /// The container that the node was last handed to.
    pub parent: Option<LayoutId>,
    /// How the node is measured, where it is a measured leaf.
    pub context: Option<NodeContext<M>>,
    /// The results of earlier layout computations.
    pub cache: taffy::Cache,
    /// Where the node was placed.
    pub layout: Layout,
}

impl<M> LayoutNode<M> {
    /// The links of this node.
    pub open spec fn kin(self) -> Kin {
        Kin {
            children: indices(self.children@),
            parent: match self.parent {
                Some(parent) => Some(parent.0),
                None => None,
            },
        }
    }
}

/// The nodes differ in nothing but their parents.
pub open spec fn same_but_parent<M>(a: LayoutNode<M>, b: LayoutNode<M>) -> bool {
    &&& a.style == b.style
    &&& a.calc_lengths == b.calc_lengths
    &&& a.children == b.children
    &&& a.context == b.context
    &&& a.cache == b.cache
    &&& a.layout == b.layout
}

/// The nodes differ in nothing but their caches.
pub open spec fn same_but_cache<M>(a: LayoutNode<M>, b: LayoutNode<M>) -> bool {
    &&& a.style == b.style
    &&& a.calc_lengths == b.calc_lengths
    &&& a.children == b.children
    &&& a.parent == b.parent
    &&& a.context == b.context
    &&& a.layout == b.layout
}

/// The nodes differ in nothing but their styles and caches.
pub open spec fn same_but_style_and_cache<M>(a: LayoutNode<M>, b: LayoutNode<M>) -> bool {
    &&& a.calc_lengths == b.calc_lengths
    &&& a.children == b.children
    &&& a.parent == b.parent
    &&& a.context == b.context
    &&& a.layout == b.layout
}

/// The storage of the layout nodes.
///
/// The nodes live here, rather than in a tree of the layout algorithms' own, so
/// that a measured leaf can hand its baseline to the algorithms together with
/// its size.
pub struct GpuiTaffyTree<M> {
    /// The nodes, each at the index that its identifier holds.
    pub nodes: Vec<LayoutNode<M>>,
}

impl<M> GpuiTaffyTree<M> {
    /// The links between the nodes.
    pub open spec fn kin(self) -> Seq<Kin> {
        self.nodes@.map_values(|node: LayoutNode<M>| node.kin())
    }

    /// The links between the nodes are well-formed: children precede the nodes
    /// that hold them, and the parent of a node is the last one that holds it.
    pub open spec fn wf(self) -> bool {
        well_linked(self.kin())
    }

    /// `id` identifies a node of this tree.
    pub open spec fn has(self, id: LayoutId) -> bool {
        id.0 < self.nodes@.len()
    }

    /// The node that `id` identifies.
    pub open spec fn at(self, id: LayoutId) -> LayoutNode<M> {
        self.nodes@[id.0 as int]
    }

    /// `after` is this tree with `style` as the style of `id`, and with the
    /// caches of `id` and of all its ancestors empty.
    pub open spec fn is_restyled(self, after: Self, id: LayoutId, style: LayoutStyle) -> bool {
        &&& after.nodes@.len() == self.nodes@.len()
        &&& after.kin() == self.kin()
        &&& after.at(id).style == style
        &&& same_but_style_and_cache(self.at(id), after.at(id))
        &&& forall|i: int|
            0 <= i < self.nodes@.len() && i != id.0 ==> same_but_cache(
                #[trigger] self.nodes@[i],
                after.nodes@[i],
            )
        &&& forall|i: int|
            0 <= i < self.nodes@.len() && is_self_or_ancestor(self.kin(), id.0 as int, i)
                ==> occupied_slots((#[trigger] after.nodes@[i]).cache) == Set::<nat>::empty()
        &&& forall|i: int|
            0 <= i < self.nodes@.len() && !is_self_or_ancestor(self.kin(), id.0 as int, i)
                ==> #[trigger] after.nodes@[i] == self.nodes@[i]
    }

    /// `after` is this tree with `layout` as the layout of `id`.
    pub open spec fn is_laid_out(self, after: Self, id: LayoutId, layout: Layout) -> bool {
        &&& after.nodes@ == self.nodes@.update(id.0 as int, LayoutNode { layout, ..self.at(id) })
        &&& after.kin() == self.kin()
    }

    /// `after` is this tree with an empty cache of `id`.
    pub open spec fn is_uncached(self, after: Self, id: LayoutId) -> bool {
        &&& after.nodes@.len() == self.nodes@.len()
        &&& occupied_slots(after.at(id).cache) == Set::<nat>::empty()
        &&& same_but_cache(self.at(id), after.at(id))
        &&& forall|i: int|
            0 <= i < self.nodes@.len() && i != id.0 ==> #[trigger] after.nodes@[i] == self.nodes@[i]
        &&& after.kin() == self.kin()
    }

    /// A tree without nodes.
    pub fn new() -> (tree: Self)
        ensures
            tree.nodes@.len() == 0,
            tree.wf(),
    {
        GpuiTaffyTree { nodes: Vec::new() }
    }

    /// Removes all nodes.
    pub fn clear(&mut self)
        ensures
            final(self).nodes@.len() == 0,
            final(self).wf(),
    {
        self.nodes.clear();
    }

    /// Adds a node that holds `children`, and makes it their parent.
    pub fn new_node(
        &mut self,
        style: LayoutStyle,
        calc_lengths: Vec<CalcLength>,
        children: &[LayoutId],
        context: Option<NodeContext<M>>,
    ) -> (id: LayoutId)
        requires
            forall|k: int| 0 <= k < children@.len() ==> #[trigger] children@[k].0 <= old(self).nodes@.len(),
        ensures
            id.0 == old(self).nodes@.len(),
            final(self).nodes@.len() == old(self).nodes@.len() + 1,
            forall|i: int|
                0 <= i < old(self).nodes@.len() ==> same_but_parent(
                    #[trigger] old(self).nodes@[i],
                    final(self).nodes@[i],
                ),
            final(self).at(id).style == style,
            final(self).at(id).calc_lengths == calc_lengths,
            final(self).at(id).children@ == children@,
            final(self).at(id).context == context,
            occupied_slots(final(self).at(id).cache) == Set::<nat>::empty(),
            final(self).at(id).layout == Layout::zero(),
            final(self).kin() == linked(old(self).kin(), indices(children@)),
            old(self).wf() && (forall|k: int|
                0 <= k < children@.len() ==> old(self).has(#[trigger] children@[k]))
                ==> final(self).wf(),
    {
        let id = LayoutId(self.nodes.len() as u64);
        let mut held: Vec<LayoutId> = Vec::new();
        let mut k: usize = 0;
        while k < children.len()
            invariant
                k <= children@.len(),
                held@ == children@.take(k as int),
            decreases children@.len() - k,
        {
            held.push(children[k]);
            k = k + 1;
            assert(children@.take(k as int) =~= children@.take(k - 1).push(children@[k - 1]));
        }
        assert(children@.take(k as int) =~= children@);
        self.nodes.push(
            LayoutNode {
                style,
                calc_lengths,
                children: held,
                parent: None,
                context,
                cache: new_cache(),
                layout: Layout::new(),
            },
        );
        let ghost base = self.nodes@;
        k = 0;
        while k < children.len()
            invariant
                k <= children@.len(),
                id.0 == old(self).nodes@.len(),
                base.len() == id.0 + 1,
                self.nodes@.len() == base.len(),
                forall|j: int| 0 <= j < children@.len() ==> #[trigger] children@[j].0 <= id.0,
                forall|i: int|
                    0 <= i < base.len() ==> same_but_parent(
                        #[trigger] base[i],
                        self.nodes@[i],
                    ),
                forall|i: int|
                    0 <= i < base.len() ==> (#[trigger] self.nodes@[i]).parent == (if indices(
                        children@,
                    ).take(k as int).contains(i as u64) {
                        Some(id)
                    } else {
                        base[i].parent
                    }),
            decreases children@.len() - k,
        {
            let child = children[k];
            let ghost before = self.nodes@;
            let ghost seen = indices(children@).take(k as int);
            self.node_mut(child).parent = Some(id);
            k = k + 1;
            proof {
                let now = indices(children@).take(k as int);
                assert(now =~= seen.push(child.0));
                assert forall|i: int| 0 <= i < base.len() implies (#[trigger] self.nodes@[i]).parent
                    == (if now.contains(i as u64) {
                    Some(id)
                } else {
                    base[i].parent
                }) by {
                    assert(before[i].parent == (if seen.contains(i as u64) {
                        Some(id)
                    } else {
                        base[i].parent
                    }));
                    if seen.contains(i as u64) {
                        let j = choose|j: int| 0 <= j < seen.len() && seen[j] == i as u64;
                        assert(now[j] == i as u64);
                    }
                    if i == child.0 {
                        assert(now[k - 1] == i as u64);
                    } else if now.contains(i as u64) {
                        let j = choose|j: int| 0 <= j < now.len() && now[j] == i as u64;
                        assert(seen[j] == i as u64);
                    }
                }
            }
        }
        proof {
            let all = indices(children@);
            assert(all.take(k as int) =~= all);
            assert(self.nodes.len() == self.nodes@.len());
            assert forall|i: int| 0 <= i < self.nodes@.len() implies #[trigger] self.kin()[i]
                == linked(old(self).kin(), all)[i] by {
                assert(same_but_parent(base[i], self.nodes@[i]));
                if i < old(self).nodes@.len() {
                    assert(base[i] == old(self).nodes@[i]);
                }
            }
            assert(self.kin() =~= linked(old(self).kin(), all));
            if old(self).wf() && (forall|j: int|
                0 <= j < children@.len() ==> old(self).has(#[trigger] children@[j])) {
                assert forall|j: int| 0 <= j < all.len() implies #[trigger] all[j] < old(
                    self,
                ).kin().len() by {
                    assert(old(self).has(children@[j]));
                }
                lemma_linked_is_well_linked(old(self).kin(), all);
            }
            assert forall|i: int| 0 <= i < old(self).nodes@.len() implies same_but_parent(
                #[trigger] old(self).nodes@[i],
                self.nodes@[i],
            ) by {
                assert(base[i] == old(self).nodes@[i]);
            }
            assert(same_but_parent(base[id.0 as int], self.nodes@[id.0 as int]));
        }
        id
    }

    /// The node that `id` identifies.
    pub fn node(&self, id: LayoutId) -> (node: &LayoutNode<M>)
        requires
            self.has(id),
        ensures
            *node == self.at(id),
    {
        assert(self.nodes.len() == self.nodes@.len());
        &self.nodes[id.0 as usize]
    }

    /// The node that `id` identifies, to be changed in place.
    pub fn node_mut(&mut self, id: LayoutId) -> (node: &mut LayoutNode<M>)
        requires
            old(self).has(id),
        ensures
            *node == old(self).at(id),
            final(self).nodes@ == old(self).nodes@.update(id.0 as int, *final(node)),
    {
        assert(self.nodes.len() == self.nodes@.len());
        &mut self.nodes[id.0 as usize]
    }

    /// The children of a node, in order.
    pub fn children(&self, id: LayoutId) -> (children: Vec<LayoutId>)
        requires
            self.has(id),
        ensures
            children@ == self.at(id).children@,
    {
        let children = self.node(id).children.clone();
        assert(children@ =~= self.at(id).children@);
        children
    }

    /// The number of children of a node.
    pub fn child_count(&self, id: LayoutId) -> (count: usize)
        requires
            self.has(id),
        ensures
            count == self.at(id).children@.len(),
    {
        self.node(id).children.len()
    }

    /// One of the children of a node.
    pub fn get_child_id(&self, id: LayoutId, child_index: usize) -> (child: LayoutId)
        requires
            self.has(id),
            child_index < self.at(id).children@.len(),
        ensures
            child == self.at(id).children@[child_index as int],
    {
        self.node(id).children[child_index]
    }

    /// The container that a node was last handed to.
    pub fn parent(&self, id: LayoutId) -> (parent: Option<LayoutId>)
        requires
            self.has(id),
        ensures
            parent == self.at(id).parent,
    {
        self.node(id).parent
    }

    /// The style of a node.
    pub fn style(&self, id: LayoutId) -> (style: &LayoutStyle)
        requires
            self.has(id),
        ensures
            *style == self.at(id).style,
    {
        &self.node(id).style
    }

    /// Where a node was placed.
    pub fn layout(&self, id: LayoutId) -> (layout: &Layout)
        requires
            self.has(id),
        ensures
            *layout == self.at(id).layout,
    {
        &self.node(id).layout
    }

    /// Notes where a node was placed.
    pub fn set_unrounded_layout(&mut self, id: LayoutId, layout: &Layout)
        requires
            old(self).has(id),
        ensures
            old(self).is_laid_out(*final(self), id, *layout),
    {
        self.node_mut(id).layout = *layout;
        assert(self.kin() =~= old(self).kin());
    }

    /// Drops the cached results of a node.
    pub fn cache_clear(&mut self, id: LayoutId)
        requires
            old(self).has(id),
        ensures
            old(self).is_uncached(*final(self), id),
    {
        clear_cache(&mut self.node_mut(id).cache);
        assert(self.kin() =~= old(self).kin());
    }

    /// Replaces the style of a node. No node whose layout may depend on it keeps
    /// a cached result: the node and all its ancestors lose theirs.
    pub fn set_style(&mut self, id: LayoutId, style: LayoutStyle)
        requires
            old(self).wf(),
            old(self).has(id),
        ensures
            old(self).is_restyled(*final(self), id, style),
            final(self).wf(),
    {
        self.node_mut(id).style = style;
        let ghost middle = *self;
        assert(self.kin() =~= old(self).kin());
        self.clear_cache_upwards(id);
        proof {
            lemma_restyled_in_two_steps(*old(self), middle, *self, id, style);
        }
    }

    /// Replaces the size in the style of a node, and drops the cached results of
    /// the node and of all its ancestors.
    pub fn set_size(&mut self, id: LayoutId, size: Size<Dimension>)
        requires
            old(self).wf(),
            old(self).has(id),
        ensures
            old(self).is_restyled(
                *final(self),
                id,
                LayoutStyle { size, ..old(self).at(id).style },
            ),
            final(self).wf(),
    {
        self.node_mut(id).style.size = size;
        let ghost middle = *self;
        assert(self.kin() =~= old(self).kin());
        self.clear_cache_upwards(id);
        proof {
            let style = LayoutStyle { size, ..old(self).at(id).style };
            lemma_restyled_in_two_steps(*old(self), middle, *self, id, style);
        }
    }

    /// Drops the cached results of a node and of all its ancestors.
    pub fn clear_cache_upwards(&mut self, id: LayoutId)
        requires
            old(self).wf(),
            old(self).has(id),
        ensures
            old(self).is_restyled(*final(self), id, old(self).at(id).style),
            final(self).wf(),
    {
        let ghost kin = self.kin();
        let ghost start = id.0 as int;
        let mut id = id;
        let mut done: bool = false;
        while !done
            invariant
                kin == old(self).kin(),
                well_linked(kin),
                self.nodes@.len() == old(self).nodes@.len(),
                self.nodes@.len() == kin.len(),
                id.0 < kin.len(),
                is_self_or_ancestor(kin, start, id.0 as int),
                forall|i: int|
                    0 <= i < kin.len() ==> same_but_cache(
                        #[trigger] old(self).nodes@[i],
                        self.nodes@[i],
                    ),
                forall|i: int|
                    0 <= i < kin.len() && is_self_or_ancestor(kin, start, i) && (done
                        || !is_self_or_ancestor(kin, id.0 as int, i)) ==> occupied_slots(
                        (#[trigger] self.nodes@[i]).cache,
                    ) == Set::<nat>::empty(),
                forall|i: int|
                    0 <= i < kin.len() && !is_self_or_ancestor(kin, start, i)
                        ==> #[trigger] self.nodes@[i] == old(self).nodes@[i],
            decreases kin.len() - id.0, (if done { 0int } else { 1int }),
        {
            let ghost before = self.nodes@;
            clear_cache(&mut self.node_mut(id).cache);
            let parent = self.parent(id);
            proof {
                assert(same_but_cache(old(self).nodes@[id.0 as int], before[id.0 as int]));
                assert(kin[id.0 as int] == old(self).nodes@[id.0 as int].kin());
                assert forall|i: int| 0 <= i < kin.len() implies same_but_cache(
                    #[trigger] old(self).nodes@[i],
                    self.nodes@[i],
                ) by {
                    assert(same_but_cache(old(self).nodes@[i], before[i]));
                }
            }
            match parent {
                Some(parent) => {
                    proof {
                        lemma_parent_is_later(kin, id.0 as int);
                        lemma_ancestor_step(kin, start, id.0 as int);
                        assert forall|i: int|
                            0 <= i < kin.len() && is_self_or_ancestor(kin, start, i)
                                && !is_self_or_ancestor(
                                kin,
                                parent.0 as int,
                                i,
                            ) implies occupied_slots((#[trigger] self.nodes@[i]).cache) == Set::<
                            nat,
                        >::empty() by {
                            if i != id.0 {
                                assert(!is_self_or_ancestor(kin, id.0 as int, i));
                                assert(self.nodes@[i] == before[i]);
                            }
                        }
                    }
                    id = parent;
                },
                None => {
                    proof {
                        assert forall|i: int|
                            0 <= i < kin.len() && is_self_or_ancestor(
                                kin,
                                start,
                                i,
                            ) implies occupied_slots((#[trigger] self.nodes@[i]).cache) == Set::<
                            nat,
                        >::empty() by {
                            if i != id.0 {
                                assert(!is_self_or_ancestor(kin, id.0 as int, i));
                                assert(self.nodes@[i] == before[i]);
                            }
                        }
                    }
                    done = true;
                },
            }
        }
        assert(self.kin() =~= kin);
        assert(same_but_cache(old(self).nodes@[start], self.nodes@[start]));
    }
}

/// Replacing the style of a node and then dropping the cached results of the
/// node and its ancestors restyles it.
proof fn lemma_restyled_in_two_steps<M>(
    before: GpuiTaffyTree<M>,
    middle: GpuiTaffyTree<M>,
    after: GpuiTaffyTree<M>,
    id: LayoutId,
    style: LayoutStyle,
)
    requires
        before.has(id),
        middle.nodes@ == before.nodes@.update(
            id.0 as int,
            LayoutNode { style, ..before.at(id) },
        ),
        middle.kin() == before.kin(),
        middle.is_restyled(after, id, style),
    ensures
        before.is_restyled(after, id, style),
{
    assert forall|i: int| 0 <= i < before.nodes@.len() && i != id.0 implies same_but_cache(
        #[trigger] before.nodes@[i],
        after.nodes@[i],
    ) by {
        assert(middle.nodes@[i] == before.nodes@[i]);
    }
}

} // verus!

//! The layout engine: nodes are requested, laid out and asked for their bounds.

use std::collections::{HashMap, HashSet};

use vstd::prelude::*;

use crate::cache::occupied_slots;
use crate::geometry::{Bounds, Point, Size};
use crate::kinship::{
    is_self_or_descendant, is_unknown_up_to, lemma_child_is_descendant,
    lemma_descent_is_transitive, lemma_parent_is_later, lemma_pending_children,
    lemma_pending_concat, lemma_unknown_is_ancestor, linked, pending_arrivals, Kin,
};
use crate::layout_style::{Dimension, LayoutStyle};
use crate::number::{is_device_length, Arithmetic, Pixels, Scalar};
use crate::snapping::{is_painted_at, is_point_sum, point_sum, snapped_bounds};
use crate::space::{is_size_in_device_pixels, AvailableSpace};
use crate::style::{calc_lengths, calcs_among, Style};
use crate::to_taffy::ToTaffy;
use crate::tree::{
    indices, same_but_parent, GpuiTaffyTree, Layout, LayoutId, NodeContext,
};

verus! {

broadcast use vstd::std_specs::hash::group_hash_axioms;

/// The layout engine.
pub struct TaffyLayoutEngine<M> {
    /// The nodes.
    pub taffy: GpuiTaffyTree<M>,
    /// Where each node that was asked for is painted, by index.
    pub absolute_layout_bounds: HashMap<u64, Bounds<Pixels>>,
    /// Unrounded absolute border-box top-left corner of each node that was asked
    /// for, in device pixels, by index.
    pub absolute_outer_origins: HashMap<u64, Point<Scalar>>,
    /// The nodes that layout was computed from, by index.
    pub computed_layouts: HashSet<u64>,
    /// Room for the walk that forgets bounds; empty between calls.
    pub layout_bounds_scratch_space: Vec<LayoutId>,
}

impl<M> TaffyLayoutEngine<M> {
    /// The links between the nodes.
    pub open spec fn kin(self) -> Seq<Kin> {
        self.taffy.kin()
    }

    /// The nodes whose bounds are remembered.
    pub open spec fn known(self) -> Set<u64> {
        self.absolute_layout_bounds@.dom()
    }

    /// What holds between calls: the tree is well-formed, bounds and origins are
    /// remembered for the same nodes, and nothing is remembered of a node that
    /// is not there.
    pub open spec fn wf(self) -> bool {
        &&& self.taffy.wf()
        &&& self.absolute_outer_origins@.dom() == self.absolute_layout_bounds@.dom()
        &&& forall|k: u64| #[trigger]
            self.absolute_layout_bounds@.contains_key(k) ==> k < self.taffy.nodes@.len()
        &&& forall|k: u64| #[trigger]
            self.computed_layouts@.contains(k) ==> k < self.taffy.nodes@.len()
        &&& self.layout_bounds_scratch_space@.len() == 0
    }

    /// An engine without nodes.
    pub fn new() -> (engine: Self)
        ensures
            engine.wf(),
            engine.taffy.nodes@.len() == 0,
            engine.absolute_layout_bounds@ == Map::<u64, Bounds<Pixels>>::empty(),
            engine.absolute_outer_origins@ == Map::<u64, Point<Scalar>>::empty(),
            engine.computed_layouts@ == Set::<u64>::empty(),
    {
        TaffyLayoutEngine {
            taffy: GpuiTaffyTree::new(),
            absolute_layout_bounds: HashMap::new(),
            absolute_outer_origins: HashMap::new(),
            computed_layouts: HashSet::new(),
            layout_bounds_scratch_space: Vec::new(),
        }
    }

    /// Removes all nodes and all that is remembered of them.
    pub fn clear(&mut self)
        ensures
            final(self).taffy.nodes@.len() == 0,
            final(self).absolute_layout_bounds@ == Map::<u64, Bounds<Pixels>>::empty(),
            final(self).absolute_outer_origins@ == Map::<u64, Point<Scalar>>::empty(),
            final(self).computed_layouts@ == Set::<u64>::empty(),
            final(self).layout_bounds_scratch_space == old(self).layout_bounds_scratch_space,
            old(self).wf() ==> final(self).wf(),
    {
        self.taffy.clear();
        self.absolute_layout_bounds.clear();
        self.absolute_outer_origins.clear();
        self.computed_layouts.clear();
    }

    /// Nothing but the nodes differs.
    pub open spec fn remembers_as(self, other: Self) -> bool {
        &&& self.absolute_layout_bounds == other.absolute_layout_bounds
        &&& self.absolute_outer_origins == other.absolute_outer_origins
        &&& self.computed_layouts == other.computed_layouts
        &&& self.layout_bounds_scratch_space == other.layout_bounds_scratch_space
    }

    /// `after` is this engine with a node for `style` that holds `children` and
    /// is measured as `context` says; `id` identifies it.
    pub open spec fn gains_node<A: Arithmetic>(
        self,
        after: Self,
        arith: &A,
        style: Style,
        rem_size: Pixels,
        scale_factor: Scalar,
        children: Seq<LayoutId>,
        context: Option<NodeContext<M>>,
        id: LayoutId,
    ) -> bool {
        let node = after.taffy.at(id);
        &&& after.remembers_as(self)
        &&& id.0 == self.taffy.nodes@.len()
        &&& after.taffy.nodes@.len() == self.taffy.nodes@.len() + 1
        &&& forall|i: int|
            0 <= i < self.taffy.nodes@.len() ==> same_but_parent(
                #[trigger] self.taffy.nodes@[i],
                after.taffy.nodes@[i],
            )
        &&& after.kin() == linked(self.kin(), indices(children))
        &&& style.maps_to(arith, rem_size, scale_factor, node.style)
        &&& node.calc_lengths@ == calcs_among(style.calc_candidates())
        &&& node.children@ == children
        &&& node.context == context
        &&& occupied_slots(node.cache) == Set::<nat>::empty()
        &&& node.layout == Layout::zero()
    }

    /// Requests the layout of an element with `children`.
    pub fn request_layout<A: Arithmetic>(
        &mut self,
        arith: &A,
        style: Style,
        rem_size: Pixels,
        scale_factor: Scalar,
        children: &[LayoutId],
    ) -> (id: LayoutId)
        requires
            forall|k: int|
                0 <= k < children@.len() ==> #[trigger] children@[k].0
                    <= old(self).taffy.nodes@.len(),
        ensures
            old(self).gains_node(
                *final(self),
                arith,
                style,
                rem_size,
                scale_factor,
                children@,
                None,
                id,
            ),
            old(self).wf() && (forall|k: int|
                0 <= k < children@.len() ==> old(self).taffy.has(#[trigger] children@[k]))
                ==> final(self).wf(),
    {
        let calc_lengths = calc_lengths(&style);
        let taffy_style: LayoutStyle = style.to_taffy(arith, rem_size, scale_factor);
        self.taffy.new_node(taffy_style, calc_lengths, children, None)
    }

    /// Requests the layout of a leaf whose size is measured. Such a leaf has no
    /// baseline, whatever the measurement tells.
    pub fn request_measured_layout<A: Arithmetic>(
        &mut self,
        arith: &A,
        style: Style,
        rem_size: Pixels,
        scale_factor: Scalar,
        measure: M,
    ) -> (id: LayoutId)
        ensures
            old(self).gains_node(
                *final(self),
                arith,
                style,
                rem_size,
                scale_factor,
                Seq::empty(),
                Some(NodeContext { measure, reports_baseline: false }),
                id,
            ),
            old(self).wf() ==> final(self).wf(),
    {
        self.request_measured_node(
            arith,
            style,
            rem_size,
            scale_factor,
            NodeContext { measure, reports_baseline: false },
        )
    }

    /// Requests the layout of a leaf whose size and first baseline are measured.
    pub fn request_measured_layout_with_baseline<A: Arithmetic>(
        &mut self,
        arith: &A,
        style: Style,
        rem_size: Pixels,
        scale_factor: Scalar,
        measure: M,
    ) -> (id: LayoutId)
        ensures
            old(self).gains_node(
                *final(self),
                arith,
                style,
                rem_size,
                scale_factor,
                Seq::empty(),
                Some(NodeContext { measure, reports_baseline: true }),
                id,
            ),
            old(self).wf() ==> final(self).wf(),
    {
        self.request_measured_node(
            arith,
            style,
            rem_size,
            scale_factor,
            NodeContext { measure, reports_baseline: true },
        )
    }

    /// Requests the layout of a measured leaf.
    fn request_measured_node<A: Arithmetic>(
        &mut self,
        arith: &A,
        style: Style,
        rem_size: Pixels,
        scale_factor: Scalar,
        context: NodeContext<M>,
    ) -> (id: LayoutId)
        ensures
            old(self).gains_node(
                *final(self),
                arith,
                style,
                rem_size,
                scale_factor,
                Seq::empty(),
                Some(context),
                id,
            ),
            old(self).wf() ==> final(self).wf(),
    {
        let calc_lengths = calc_lengths(&style);
        let taffy_style: LayoutStyle = style.to_taffy(arith, rem_size, scale_factor);
        let children: [LayoutId; 0] = [];
        assert(children@ =~= Seq::<LayoutId>::empty());
        self.taffy.new_node(taffy_style, calc_lengths, &children, Some(context))
    }

    /// `r` is `before`, or the logical length `fill` in whole device pixels
    /// where `before` is `auto`.
    pub open spec fn is_stretched<A: Arithmetic>(
        arith: &A,
        before: Dimension,
        fill: Pixels,
        scale_factor: Scalar,
        r: Dimension,
    ) -> bool {
        if before is Auto {
            &&& r is Length
            &&& is_device_length(arith, fill.0, scale_factor, r->Length_0)
        } else {
            r == before
        }
    }

    /// `after` is this engine with each `auto` dimension of `id` replaced by the
    /// corresponding one of `size` in whole device pixels. Where none is `auto`
    /// nothing changes; otherwise `id` and its ancestors lose their cached
    /// results.
    pub open spec fn is_stretched_to_fill<A: Arithmetic>(
        self,
        after: Self,
        arith: &A,
        id: LayoutId,
        size: Size<Pixels>,
        scale_factor: Scalar,
    ) -> bool {
        let style = self.taffy.at(id).style;
        let stretched = after.taffy.at(id).style.size;
        &&& after.remembers_as(self)
        &&& Self::is_stretched(
            arith,
            style.size.width,
            size.width,
            scale_factor,
            stretched.width,
        )
        &&& Self::is_stretched(
            arith,
            style.size.height,
            size.height,
            scale_factor,
            stretched.height,
        )
        &&& if style.size.width is Auto || style.size.height is Auto {
            self.taffy.is_restyled(after.taffy, id, LayoutStyle { size: stretched, ..style })
        } else {
            after.taffy == self.taffy
        }
    }

    /// Treats any `auto` dimension of the given node's style as filling `size`.
    ///
    /// This is applied to window roots before layout so they behave like the
    /// root element on the web, which stretches to fill the initial containing
    /// block (the viewport) unless given an explicit size. Explicitly styled
    /// dimensions are preserved.
    pub fn stretch_auto_size_to_fill<A: Arithmetic>(
        &mut self,
        arith: &A,
        id: LayoutId,
        size: Size<Pixels>,
        scale_factor: Scalar,
    )
        requires
            old(self).taffy.wf(),
            old(self).taffy.has(id),
        ensures
            old(self).is_stretched_to_fill(*final(self), arith, id, size, scale_factor),
            old(self).wf() ==> final(self).wf(),
    {
        let before = self.taffy.style(id).size;
        let stretch_width = before.width.is_auto();
        let stretch_height = before.height.is_auto();
        if !stretch_width && !stretch_height {
            return;
        }
        let mut stretched = before;
        if stretch_width {
            stretched.width =
            Dimension::Length(arith.round_to_device_pixel(size.width.0, scale_factor));
        }
        if stretch_height {
            stretched.height =
            Dimension::Length(arith.round_to_device_pixel(size.height.0, scale_factor));
        }
        self.taffy.set_size(id, stretched);
    }

    /// What is remembered of the node with this index follows from its layout
    /// and from what is remembered of its parent.
    pub open spec fn is_placed<A: Arithmetic>(
        self,
        arith: &A,
        scale_factor: Scalar,
        k: u64,
    ) -> bool {
        let node = self.taffy.nodes@[k as int];
        let origin = self.absolute_outer_origins@[k];
        &&& match node.parent {
            Some(parent) => {
                &&& self.absolute_outer_origins@.contains_key(parent.0)
                &&& is_point_sum(
                    arith,
                    self.absolute_outer_origins@[parent.0],
                    node.layout.location,
                    origin,
                )
            },
            None => origin == node.layout.location,
        }
        &&& is_painted_at(
            arith,
            origin,
            node.layout.size,
            scale_factor,
            self.absolute_layout_bounds@[k],
        )
    }

    /// All that is remembered follows from the layouts of the nodes.
    pub open spec fn all_placed<A: Arithmetic>(self, arith: &A, scale_factor: Scalar) -> bool {
        forall|k: u64| #[trigger]
            self.known().contains(k) ==> self.is_placed(arith, scale_factor, k)
    }

    /// `after` remembers all that this engine remembers, and what it remembers
    /// beyond follows from the layouts of the nodes.
    pub open spec fn learns<A: Arithmetic>(
        self,
        after: Self,
        arith: &A,
        scale_factor: Scalar,
    ) -> bool {
        &&& after.taffy == self.taffy
        &&& after.computed_layouts == self.computed_layouts
        &&& after.layout_bounds_scratch_space == self.layout_bounds_scratch_space
        &&& forall|k: u64| #[trigger]
            self.known().contains(k) ==> {
                &&& after.known().contains(k)
                &&& after.absolute_layout_bounds@[k] == self.absolute_layout_bounds@[k]
                &&& after.absolute_outer_origins@[k] == self.absolute_outer_origins@[k]
            }
        &&& forall|k: u64| #[trigger]
            after.known().contains(k) && !self.known().contains(k) ==> after.is_placed(
                arith,
                scale_factor,
                k,
            )
    }

    /// `after` is this engine once it was asked for the bounds of the node with
    /// this index: it has learned them and those of all ancestors up to the
    /// first one that was known already.
    pub open spec fn is_asked_for<A: Arithmetic>(
        self,
        after: Self,
        arith: &A,
        id: LayoutId,
        scale_factor: Scalar,
    ) -> bool {
        &&& self.learns(after, arith, scale_factor)
        &&& forall|k: u64| #[trigger]
            after.known().contains(k) <==> self.known().contains(k) || is_unknown_up_to(
                self.kin(),
                self.known(),
                id.0 as int,
                k as int,
            )
    }

    /// Where a node is painted, in logical pixels.
    ///
    /// The outer box is snapped to the grid of device pixels by its absolute
    /// edges. What is computed is remembered until layout is computed again.
    pub fn layout_bounds<A: Arithmetic>(
        &mut self,
        arith: &A,
        id: LayoutId,
        scale_factor: Scalar,
    ) -> (bounds: Bounds<Pixels>)
        requires
            old(self).wf(),
            old(self).taffy.has(id),
        ensures
            final(self).wf(),
            old(self).is_asked_for(*final(self), arith, id, scale_factor),
            final(self).known().contains(id.0),
            bounds == final(self).absolute_layout_bounds@[id.0],
        decreases old(self).taffy.nodes@.len() - id.0,
    {
        if let Some(bounds) = self.absolute_layout_bounds.get(&id.0) {
            return *bounds;
        }
        let ghost start = *self;
        let ghost kin = self.kin();
        let layout = *self.taffy.layout(id);
        let parent = self.taffy.parent(id);
        assert(kin[id.0 as int] == self.taffy.nodes@[id.0 as int].kin());
        let absolute_outer_origin = match parent {
            Some(parent_id) => {
                proof {
                    lemma_parent_is_later(kin, id.0 as int);
                }
                self.layout_bounds(arith, parent_id, scale_factor);
                assert(self.absolute_outer_origins@.contains_key(parent_id.0));
                let parent_origin = *self.absolute_outer_origins.get(&parent_id.0).unwrap();
                point_sum(arith, parent_origin, layout.location)
            },
            None => layout.location,
        };
        let ghost middle = *self;
        self.absolute_outer_origins.insert(id.0, absolute_outer_origin);
        let bounds = snapped_bounds(arith, absolute_outer_origin, layout.size, scale_factor);
        self.absolute_layout_bounds.insert(id.0, bounds);
        proof {
            assert forall|k: u64| #[trigger] self.known().contains(k) implies (start.known().contains(
                k,
            ) || is_unknown_up_to(kin, start.known(), id.0 as int, k as int)) by {
                if k != id.0 {
                    assert(middle.known().contains(k));
                }
            }
            assert forall|k: u64|
                start.known().contains(k) || is_unknown_up_to(
                    kin,
                    start.known(),
                    id.0 as int,
                    k as int,
                ) implies #[trigger] self.known().contains(k) by {
                if start.known().contains(k) {
                    assert(middle.known().contains(k));
                } else if k != id.0 {
                    assert(middle.known().contains(k));
                }
            }
            assert forall|k: u64| #[trigger]
                self.known().contains(k) && !start.known().contains(k) implies self.is_placed(
                arith,
                scale_factor,
                k,
            ) by {
                if k != id.0 {
                    assert(middle.known().contains(k));
                    assert(middle.is_placed(arith, scale_factor, k));
                    lemma_unknown_is_ancestor(kin, start.known(), id.0 as int, k as int);
                    if middle.taffy.nodes@[k as int].parent is Some {
                        assert(kin[k as int] == middle.taffy.nodes@[k as int].kin());
                        lemma_parent_is_later(kin, k as int);
                    }
                }
            }
            assert(self.absolute_outer_origins@.dom() =~= self.absolute_layout_bounds@.dom());
        }
        bounds
    }

    /// `after` is this engine once layout was requested from `id`: where that is
    /// not the first time, all that is remembered of `id` and the nodes below it
    /// is forgotten.
    pub open spec fn is_about_to_lay_out(self, after: Self, id: LayoutId) -> bool {
        &&& after.taffy == self.taffy
        &&& after.layout_bounds_scratch_space@ == self.layout_bounds_scratch_space@
        &&& after.computed_layouts@ == self.computed_layouts@.insert(id.0)
        &&& forall|k: u64| #[trigger]
            after.known().contains(k) <==> {
                &&& self.known().contains(k)
                &&& !(self.computed_layouts@.contains(id.0) && is_self_or_descendant(
                    self.kin(),
                    id.0 as int,
                    k as int,
                ))
            }
        &&& forall|k: u64| #[trigger]
            after.known().contains(k) ==> {
                &&& after.absolute_layout_bounds@[k] == self.absolute_layout_bounds@[k]
                &&& after.absolute_outer_origins@[k] == self.absolute_outer_origins@[k]
            }
    }

    /// Prepares the computation of layout from `id` in the given space: bounds
    /// that it may change are forgotten. The result is the space to run the
    /// layout algorithms with, in device pixels.
    pub fn compute_layout<A: Arithmetic>(
        &mut self,
        arith: &A,
        id: LayoutId,
        available_space: Size<AvailableSpace>,
        scale_factor: Scalar,
    ) -> (space: Size<AvailableSpace>)
        requires
            old(self).wf(),
            old(self).taffy.has(id),
        ensures
            final(self).wf(),
            old(self).is_about_to_lay_out(*final(self), id),
            is_size_in_device_pixels(arith, available_space, scale_factor, space),
    {
        if !self.computed_layouts.insert(id.0) {
            self.forget_bounds_below(id);
        }
        assert(self.layout_bounds_scratch_space@ =~= old(self).layout_bounds_scratch_space@);
        Size {
            width: available_space.width.to_device_pixels(arith, scale_factor),
            height: available_space.height.to_device_pixels(arith, scale_factor),
        }
    }

    /// Forgets the bounds of `id` and of all nodes below it.
    fn forget_bounds_below(&mut self, id: LayoutId)
        requires
            old(self).wf(),
            old(self).taffy.has(id),
        ensures
            final(self).wf(),
            final(self).taffy == old(self).taffy,
            final(self).computed_layouts == old(self).computed_layouts,
            forall|k: u64| #[trigger]
                final(self).known().contains(k) <==> old(self).known().contains(k)
                    && !is_self_or_descendant(old(self).kin(), id.0 as int, k as int),
            forall|k: u64| #[trigger]
                final(self).known().contains(k) ==> {
                    &&& final(self).absolute_layout_bounds@[k]
                        == old(self).absolute_layout_bounds@[k]
                    &&& final(self).absolute_outer_origins@[k]
                        == old(self).absolute_outer_origins@[k]
                },
    {
        let ghost kin = self.kin();
        let ghost root = id.0 as int;
        let ghost start = *self;
        self.layout_bounds_scratch_space.push(id);
        assert(is_self_or_descendant(kin, root, root));
        assert forall|k: u64|
            is_self_or_descendant(kin, root, k as int) implies is_below_some(
            kin,
            self.layout_bounds_scratch_space@,
            k as int,
        ) by {
            assert(is_self_or_descendant(
                kin,
                self.layout_bounds_scratch_space@[0].0 as int,
                k as int,
            ));
        }
        while self.layout_bounds_scratch_space.len() > 0
            invariant
                start == *old(self),
                kin == start.kin(),
                root == id.0,
                start.wf(),
                start.taffy.has(id),
                self.taffy == start.taffy,
                self.computed_layouts == start.computed_layouts,
                self.absolute_outer_origins@.dom() == self.absolute_layout_bounds@.dom(),
                forall|k: u64| #[trigger]
                    self.known().contains(k) ==> {
                        &&& start.known().contains(k)
                        &&& self.absolute_layout_bounds@[k] == start.absolute_layout_bounds@[k]
                        &&& self.absolute_outer_origins@[k] == start.absolute_outer_origins@[k]
                    },
                forall|k: u64| #[trigger]
                    start.known().contains(k) && !is_self_or_descendant(kin, root, k as int)
                        ==> self.known().contains(k),
                forall|k: u64| #[trigger]
                    self.known().contains(k) && is_self_or_descendant(kin, root, k as int)
                        ==> is_below_some(kin, self.layout_bounds_scratch_space@, k as int),
                forall|j: int|
                    0 <= j < self.layout_bounds_scratch_space@.len() ==> start.taffy.has(
                        #[trigger] self.layout_bounds_scratch_space@[j],
                    ) && is_self_or_descendant(
                        kin,
                        root,
                        self.layout_bounds_scratch_space@[j].0 as int,
                    ),
            decreases pending_arrivals(kin, indices(self.layout_bounds_scratch_space@)),
        {
            let ghost stack = self.layout_bounds_scratch_space@;
            let ghost before = *self;
            if let Some(node) = self.layout_bounds_scratch_space.pop() {
                let ghost rest = self.layout_bounds_scratch_space@;
                assert(stack[stack.len() - 1] == node);
                self.absolute_layout_bounds.remove(&node.0);
                self.absolute_outer_origins.remove(&node.0);
                let mut children = self.taffy.children(node);
                let ghost held = children@;
                self.layout_bounds_scratch_space.append(&mut children);
                proof {
                    let now = self.layout_bounds_scratch_space@;
                    assert(stack =~= rest.push(node));
                    assert forall|k: u64| #[trigger] self.known().contains(k) implies {
                        &&& start.known().contains(k)
                        &&& self.absolute_layout_bounds@[k] == start.absolute_layout_bounds@[k]
                        &&& self.absolute_outer_origins@[k] == start.absolute_outer_origins@[k]
                    } by {
                        assert(before.known().contains(k));
                    }
                    assert(now =~= rest + held);
                    assert(kin[node.0 as int] == start.taffy.nodes@[node.0 as int].kin());
                    assert(indices(stack).drop_last() =~= indices(rest));
                    assert(indices(stack).last() == node.0);
                    assert(indices(now) =~= indices(rest) + indices(held));
                    lemma_pending_concat(kin, indices(rest), indices(held));
                    lemma_pending_children(kin, node.0 as nat);
                    assert forall|j: int| 0 <= j < now.len() implies start.taffy.has(
                        #[trigger] now[j],
                    ) && is_self_or_descendant(kin, root, now[j].0 as int) by {
                        if j < rest.len() {
                            assert(now[j] == stack[j]);
                        } else {
                            let c = j - rest.len();
                            assert(now[j] == held[c]);
                            assert(kin[node.0 as int].children[c] == held[c].0);
                            assert(kin[node.0 as int].children[c] < node.0);
                            assert(is_self_or_descendant(kin, held[c].0 as int, held[c].0 as int));
                            lemma_child_is_descendant(
                                kin,
                                node.0 as int,
                                c,
                                held[c].0 as int,
                            );
                            lemma_descent_is_transitive(
                                kin,
                                root,
                                node.0 as int,
                                held[c].0 as int,
                            );
                        }
                    }
                    assert forall|k: u64| #[trigger]
                        self.known().contains(k) && is_self_or_descendant(
                            kin,
                            root,
                            k as int,
                        ) implies is_below_some(kin, now, k as int) by {
                        assert(before.known().contains(k));
                        lemma_below_some_step(kin, stack, rest, held, node, k as int);
                        assert(now =~= rest + held);
                    }
                    assert(self.absolute_outer_origins@.dom()
                        =~= self.absolute_layout_bounds@.dom());
                }
            }
        }
        assert forall|k: u64| #[trigger] self.absolute_layout_bounds@.contains_key(k) implies k
            < self.taffy.nodes@.len() by {
            assert(self.known().contains(k));
            assert(start.absolute_layout_bounds@.contains_key(k));
        }
    }
}

/// One of `ids` is `below` or has it below.
pub open spec fn is_below_some(kin: Seq<Kin>, ids: Seq<LayoutId>, below: int) -> bool {
    exists|j: int|
        0 <= j < ids.len() && is_self_or_descendant(kin, (#[trigger] ids[j]).0 as int, below)
}

/// A node that was below some entry of a stack is, once the last entry is
/// replaced by its children, that entry or below an entry of the new stack.
proof fn lemma_below_some_step(
    kin: Seq<Kin>,
    stack: Seq<LayoutId>,
    rest: Seq<LayoutId>,
    held: Seq<LayoutId>,
    node: LayoutId,
    below: int,
)
    requires
        stack == rest.push(node),
        0 <= node.0 < kin.len(),
        kin[node.0 as int].children == indices(held),
        is_below_some(kin, stack, below),
        below != node.0,
    ensures
        is_below_some(kin, rest + held, below),
{
    let now = rest + held;
    let j = choose|j: int|
        0 <= j < stack.len() && is_self_or_descendant(kin, (#[trigger] stack[j]).0 as int, below);
    if j < rest.len() {
        assert(now[j] == stack[j]);
    } else {
        let n = node.0 as int;
        let c = choose|c: int|
            0 <= c < kin[n].children.len() && #[trigger] kin[n].children[c] < n
                && is_self_or_descendant(kin, kin[n].children[c] as int, below);
        assert(now[rest.len() + c] == held[c]);
        assert(kin[n].children[c] == held[c].0);
    }
}

} // verus!

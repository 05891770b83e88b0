//! Figures about a layout tree, used to understand performance.
//!
//! A node that is held more than once counts each time a walk arrives at it.

use vstd::prelude::*;

use crate::engine::TaffyLayoutEngine;
use crate::kinship::{
    arrivals, arrivals_with, count_below, count_with, edges_below, edges_with, height,
    height_of_all, lemma_count_with_prefix, lemma_height_prefix, Arrival,
};
use crate::tree::{indices, LayoutId};

verus! {

/// What is noted of a node when a walk arrives at it.
#[derive(Clone, Copy, Debug, PartialEq, Eq, Structural)]
pub struct DepthNote {
    /// The node.
    pub node: LayoutId,
    /// The depth that the walk gives it.
    pub depth: u32,
    /// Its number of children.
    pub children: usize,
}

impl DepthNote {
    /// The arrival that is noted.
    pub open spec fn arrival(self) -> Arrival {
        Arrival {
            node: self.node.0 as nat,
            depth: self.depth as nat,
            children: self.children as nat,
        }
    }
}

/// The arrivals that are noted, in order.
pub open spec fn noted(notes: Seq<DepthNote>) -> Seq<Arrival> {
    notes.map_values(|note: DepthNote| note.arrival())
}

/// The links that pairs of identifiers stand for, in order.
pub open spec fn as_links(edges: Seq<(LayoutId, LayoutId)>) -> Seq<(nat, nat)> {
    edges.map_values(|edge: (LayoutId, LayoutId)| ((edge.0).0 as nat, (edge.1).0 as nat))
}

impl<M> TaffyLayoutEngine<M> {
    /// The number of nodes below `parent`.
    pub fn count_all_children(&self, parent: LayoutId) -> (count: u32)
        requires
            self.taffy.wf(),
            self.taffy.has(parent),
            count_below(self.kin(), parent.0 as nat) <= u32::MAX,
        ensures
            count == count_below(self.kin(), parent.0 as nat),
        decreases parent.0,
    {
        let children = self.taffy.children(parent);
        let ghost kin = self.kin();
        let ghost all = kin[parent.0 as int].children;
        assert(kin[parent.0 as int] == self.taffy.nodes@[parent.0 as int].kin());
        let mut count: u32 = 0;
        let mut i: usize = 0;
        while i < children.len()
            invariant
                i <= children@.len(),
                kin == self.kin(),
                all == indices(children@),
                all == kin[parent.0 as int].children,
                self.taffy.wf(),
                self.taffy.has(parent),
                count_with(kin, all, parent.0 as nat) <= u32::MAX,
                count == count_with(kin, all.take(i as int), parent.0 as nat),
            decreases children@.len() - i,
        {
            let child = children[i];
            proof {
                assert(kin[parent.0 as int].children[i as int] == child.0);
                assert(kin[parent.0 as int].children[i as int] < parent.0);
                assert(all.take(i + 1).drop_last() =~= all.take(i as int));
                assert(all.take(i + 1).last() == child.0);
                lemma_count_with_prefix(kin, all, parent.0 as nat, i + 1);
            }
            count = count + 1;
            count = count + self.count_all_children(child);
            i = i + 1;
        }
        assert(all.take(i as int) =~= all);
        count
    }

    /// The number of nodes on the longest way down from `parent`, and `depth`
    /// more. Each arrival of the walk is added to `notes`.
    pub fn max_depth(&self, depth: u32, parent: LayoutId, notes: &mut Vec<DepthNote>) -> (max: u32)
        requires
            self.taffy.wf(),
            self.taffy.has(parent),
            depth + height(self.kin(), parent.0 as nat) <= u32::MAX,
        ensures
            max == depth + height(self.kin(), parent.0 as nat),
            noted(final(notes)@) == noted(old(notes)@) + arrivals(
                self.kin(),
                parent.0 as nat,
                depth as nat,
            ),
        decreases parent.0,
    {
        let ghost before = noted(notes@);
        let children = self.taffy.children(parent);
        let ghost kin = self.kin();
        let ghost all = kin[parent.0 as int].children;
        assert(kin[parent.0 as int] == self.taffy.nodes@[parent.0 as int].kin());
        let note = DepthNote { node: parent, depth, children: children.len() };
        let ghost first = seq![note.arrival()];
        notes.push(note);
        assert(noted(notes@) =~= before + first + arrivals_with(
            kin,
            all.take(0),
            parent.0 as nat,
        ));
        let mut max_child_depth: u32 = 0;
        let mut i: usize = 0;
        while i < children.len()
            invariant
                i <= children@.len(),
                kin == self.kin(),
                all == indices(children@),
                all == kin[parent.0 as int].children,
                self.taffy.wf(),
                self.taffy.has(parent),
                height_of_all(kin, all, parent.0 as nat) <= u32::MAX,
                max_child_depth == height_of_all(kin, all.take(i as int), parent.0 as nat),
                noted(notes@) == before + first + arrivals_with(
                    kin,
                    all.take(i as int),
                    parent.0 as nat,
                ),
            decreases children@.len() - i,
        {
            let child = children[i];
            proof {
                assert(kin[parent.0 as int].children[i as int] == child.0);
                assert(kin[parent.0 as int].children[i as int] < parent.0);
                assert(all.take(i + 1).drop_last() =~= all.take(i as int));
                assert(all.take(i + 1).last() == child.0);
                lemma_height_prefix(kin, all, parent.0 as nat, i + 1);
            }
            let child_depth = self.max_depth(0, child, notes);
            if child_depth > max_child_depth {
                max_child_depth = child_depth;
            }
            i = i + 1;
            assert(noted(notes@) =~= before + first + arrivals_with(
                kin,
                all.take(i as int),
                parent.0 as nat,
            ));
        }
        assert(all.take(i as int) =~= all);
        assert(noted(notes@) =~= before + arrivals(kin, parent.0 as nat, depth as nat));
        depth + 1 + max_child_depth
    }

    /// The links to children that a walk from `parent` follows, in order.
    pub fn get_edges(&self, parent: LayoutId) -> (edges: Vec<(LayoutId, LayoutId)>)
        requires
            self.taffy.wf(),
            self.taffy.has(parent),
        ensures
            as_links(edges@) == edges_below(self.kin(), parent.0 as nat),
        decreases parent.0,
    {
        let children = self.taffy.children(parent);
        let ghost kin = self.kin();
        let ghost all = kin[parent.0 as int].children;
        assert(kin[parent.0 as int] == self.taffy.nodes@[parent.0 as int].kin());
        let mut edges: Vec<(LayoutId, LayoutId)> = Vec::new();
        let mut i: usize = 0;
        assert(as_links(edges@) =~= edges_with(kin, all.take(0), parent.0 as nat));
        while i < children.len()
            invariant
                i <= children@.len(),
                kin == self.kin(),
                all == indices(children@),
                all == kin[parent.0 as int].children,
                self.taffy.wf(),
                self.taffy.has(parent),
                as_links(edges@) == edges_with(kin, all.take(i as int), parent.0 as nat),
            decreases children@.len() - i,
        {
            let child = children[i];
            proof {
                assert(kin[parent.0 as int].children[i as int] == child.0);
                assert(kin[parent.0 as int].children[i as int] < parent.0);
                assert(all.take(i + 1).drop_last() =~= all.take(i as int));
                assert(all.take(i + 1).last() == child.0);
            }
            edges.push((parent, child));
            let mut below = self.get_edges(child);
            edges.append(&mut below);
            i = i + 1;
            assert(as_links(edges@) =~= edges_with(kin, all.take(i as int), parent.0 as nat));
        }
        assert(all.take(i as int) =~= all);
        edges
    }
}

} // verus!

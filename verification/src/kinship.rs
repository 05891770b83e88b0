//! The parent and child links of a layout tree, and what follows from them.
//!
//! A node is requested after its children, so links to children lead to earlier
//! nodes and links to parents to later ones. The same node may be handed to more
//! than one container; the last one that got it is its parent.

use vstd::prelude::*;

verus! {

/// The links of one node.
pub struct Kin {
    /// The children, in order.
    pub children: Seq<u64>,
    /// The container that the node was last handed to.
    pub parent: Option<u64>,
}

/// Every child was there before the node that holds it.
pub open spec fn children_precede(kin: Seq<Kin>) -> bool {
    forall|i: int, k: int|
        0 <= i < kin.len() && 0 <= k < kin[i].children.len() ==> #[trigger] kin[i].children[k] < i
}

/// `parent` is the last node that has `node` among its children, if any has.
pub open spec fn is_last_holder(kin: Seq<Kin>, node: int, parent: Option<u64>) -> bool {
    match parent {
        Some(p) => {
            &&& 0 <= p < kin.len()
            &&& kin[p as int].children.contains(node as u64)
            &&& forall|q: int|
                p < q < kin.len() ==> !(#[trigger] kin[q]).children.contains(node as u64)
        },
        None => forall|q: int|
            0 <= q < kin.len() ==> !(#[trigger] kin[q]).children.contains(node as u64),
    }
}

/// Every node's parent is the last node that holds it.
pub open spec fn parents_hold(kin: Seq<Kin>) -> bool {
    forall|i: int| 0 <= i < kin.len() ==> is_last_holder(kin, i, #[trigger] kin[i].parent)
}

/// The links form a tree, or a forest, in which a node may be held more than
/// once.
pub open spec fn well_linked(kin: Seq<Kin>) -> bool {
    &&& kin.len() <= u64::MAX
    &&& children_precede(kin)
    &&& parents_hold(kin)
}

/// The links after a node with `children` is added.
pub open spec fn linked(kin: Seq<Kin>, children: Seq<u64>) -> Seq<Kin> {
    Seq::new(
        kin.len() + 1,
        |i: int|
            Kin {
                children: if i < kin.len() {
                    kin[i].children
                } else {
                    children
                },
                parent: if children.contains(i as u64) {
                    Some(kin.len() as u64)
                } else if i < kin.len() {
                    kin[i].parent
                } else {
                    None
                },
            },
    )
}

/// Adding a node whose children are all there keeps the links well-formed.
pub proof fn lemma_linked_is_well_linked(kin: Seq<Kin>, children: Seq<u64>)
    requires
        well_linked(kin),
        kin.len() < u64::MAX,
        forall|k: int| 0 <= k < children.len() ==> #[trigger] children[k] < kin.len(),
    ensures
        well_linked(linked(kin, children)),
{
    let n = kin.len() as int;
    let after = linked(kin, children);
    assert forall|i: int, k: int|
        0 <= i < after.len() && 0 <= k < after[i].children.len() implies #[trigger] after[i].children[k]
        < i by {
        if i < n {
            assert(after[i].children == kin[i].children);
            assert(kin[i].children[k] < i);
        } else {
            assert(after[i].children == children);
            assert(children[k] < n);
        }
    }
    assert forall|i: int| 0 <= i < after.len() implies is_last_holder(
        after,
        i,
        #[trigger] after[i].parent,
    ) by {
        assert(forall|q: int| 0 <= q < n ==> (#[trigger] after[q]).children == kin[q].children);
        assert(after[n].children == children);
        if children.contains(i as u64) {
            assert(after[i].parent == Some(n as u64));
        } else if i < n {
            assert(is_last_holder(kin, i, kin[i].parent));
            assert(after[i].parent == kin[i].parent);
        } else {
            assert forall|q: int| 0 <= q < after.len() implies !(
            #[trigger] after[q]).children.contains(i as u64) by {
                if q < n && after[q].children.contains(i as u64) {
                    let k = choose|k: int|
                        0 <= k < kin[q].children.len() && kin[q].children[k] == i as u64;
                    assert(kin[q].children[k] < q);
                }
            }
        }
    }
}

/// A parent comes after its child and holds it.
pub proof fn lemma_parent_is_later(kin: Seq<Kin>, id: int)
    requires
        well_linked(kin),
        0 <= id < kin.len(),
        kin[id].parent is Some,
    ensures
        id < kin[id].parent->0 < kin.len(),
        kin[kin[id].parent->0 as int].children.contains(id as u64),
{
    assert(is_last_holder(kin, id, kin[id].parent));
    let p = kin[id].parent->0 as int;
    let k = choose|k: int| 0 <= k < kin[p].children.len() && kin[p].children[k] == id as u64;
    assert(kin[p].children[k] < p);
}

/// `above` is `id` or reached from it by links to parents.
pub open spec fn is_self_or_ancestor(kin: Seq<Kin>, id: int, above: int) -> bool
    decreases kin.len() - id,
{
    ||| above == id
    ||| {
        &&& 0 <= id < kin.len()
        &&& kin[id].parent is Some
        &&& id < kin[id].parent->0 < kin.len()
        &&& is_self_or_ancestor(kin, kin[id].parent->0 as int, above)
    }
}

/// `below` is `id` or reached from it by links to children.
pub open spec fn is_self_or_descendant(kin: Seq<Kin>, id: int, below: int) -> bool
    decreases id,
{
    ||| below == id
    ||| 0 <= id < kin.len() && exists|k: int|
        0 <= k < kin[id].children.len() && #[trigger] kin[id].children[k] < id
            && is_self_or_descendant(kin, kin[id].children[k] as int, below)
}

/// `above` is `id` or one of its ancestors, and neither it nor any node on the
/// way up to it is among `known`.
pub open spec fn is_unknown_up_to(kin: Seq<Kin>, known: Set<u64>, id: int, above: int) -> bool
    decreases kin.len() - id,
{
    &&& 0 <= id < kin.len()
    &&& !known.contains(id as u64)
    &&& above == id || {
        &&& kin[id].parent is Some
        &&& id < kin[id].parent->0 < kin.len()
        &&& is_unknown_up_to(kin, known, kin[id].parent->0 as int, above)
    }
}

/// A node that is unknown all the way up to is unknown, and an ancestor.
pub proof fn lemma_unknown_is_ancestor(kin: Seq<Kin>, known: Set<u64>, id: int, above: int)
    requires
        is_unknown_up_to(kin, known, id, above),
    ensures
        id <= above < kin.len(),
        !known.contains(above as u64),
        is_self_or_ancestor(kin, id, above),
    decreases kin.len() - id,
{
    if above != id {
        lemma_unknown_is_ancestor(kin, known, kin[id].parent->0 as int, above);
    }
}

/// A child's descendants are its container's.
pub proof fn lemma_child_is_descendant(kin: Seq<Kin>, id: int, k: int, below: int)
    requires
        well_linked(kin),
        0 <= id < kin.len(),
        0 <= k < kin[id].children.len(),
        is_self_or_descendant(kin, kin[id].children[k] as int, below),
    ensures
        is_self_or_descendant(kin, id, below),
{
    assert(kin[id].children[k] < id);
}

/// Descent is transitive.
pub proof fn lemma_descent_is_transitive(kin: Seq<Kin>, top: int, middle: int, below: int)
    requires
        well_linked(kin),
        is_self_or_descendant(kin, top, middle),
        is_self_or_descendant(kin, middle, below),
    ensures
        is_self_or_descendant(kin, top, below),
    decreases top,
{
    if middle != top {
        let k = choose|k: int|
            0 <= k < kin[top].children.len() && #[trigger] kin[top].children[k] < top
                && is_self_or_descendant(kin, kin[top].children[k] as int, middle);
        lemma_descent_is_transitive(kin, kin[top].children[k] as int, middle, below);
    }
}

/// The parent of an ancestor is an ancestor.
pub proof fn lemma_ancestor_step(kin: Seq<Kin>, id: int, above: int)
    requires
        well_linked(kin),
        0 <= id < kin.len(),
        0 <= above < kin.len(),
        is_self_or_ancestor(kin, id, above),
        kin[above].parent is Some,
    ensures
        is_self_or_ancestor(kin, id, kin[above].parent->0 as int),
    decreases kin.len() - id,
{
    lemma_parent_is_later(kin, above);
    if id != above {
        lemma_ancestor_step(kin, kin[id].parent->0 as int, above);
    } else {
        assert(is_self_or_ancestor(kin, kin[above].parent->0 as int, kin[above].parent->0 as int));
    }
}

/// Ancestry is transitive.
pub proof fn lemma_ancestry_is_transitive(kin: Seq<Kin>, id: int, middle: int, above: int)
    requires
        is_self_or_ancestor(kin, id, middle),
        is_self_or_ancestor(kin, middle, above),
    ensures
        is_self_or_ancestor(kin, id, above),
    decreases kin.len() - id,
{
    if middle != id {
        lemma_ancestry_is_transitive(kin, kin[id].parent->0 as int, middle, above);
    }
}

/// A node descends from each of its ancestors.
pub proof fn lemma_ancestors_hold_their_descendants(kin: Seq<Kin>, id: int, above: int)
    requires
        well_linked(kin),
        0 <= id < kin.len(),
        is_self_or_ancestor(kin, id, above),
    ensures
        id <= above < kin.len(),
        is_self_or_descendant(kin, above, id),
    decreases kin.len() - id,
{
    if above != id {
        let p = kin[id].parent->0 as int;
        lemma_parent_is_later(kin, id);
        lemma_ancestors_hold_their_descendants(kin, p, above);
        let k = choose|k: int| 0 <= k < kin[p].children.len() && kin[p].children[k] == id as u64;
        lemma_child_is_descendant(kin, p, k, id);
        lemma_descent_is_transitive(kin, above, p, id);
    }
}

/// How many times a walk that starts at `id` arrives at some node below it.
pub open spec fn count_below(kin: Seq<Kin>, id: nat) -> nat
    decreases id, kin[id as int].children.len() + 1,
{
    if id < kin.len() {
        count_with(kin, kin[id as int].children, id)
    } else {
        0
    }
}

/// How many times a walk arrives at one of `children` or some node below them.
pub open spec fn count_with(kin: Seq<Kin>, children: Seq<u64>, bound: nat) -> nat
    decreases bound, children.len(),
{
    if children.len() == 0 {
        0
    } else {
        let last = children.last() as nat;
        count_with(kin, children.drop_last(), bound) + 1 + (if last < bound {
            count_below(kin, last)
        } else {
            0
        })
    }
}

/// The number of nodes on the longest way down from `id`.
pub open spec fn height(kin: Seq<Kin>, id: nat) -> nat
    decreases id, kin[id as int].children.len() + 1,
{
    1 + (if id < kin.len() {
        height_of_all(kin, kin[id as int].children, id)
    } else {
        0
    })
}

/// The number of nodes on the longest way down from any of `children`.
pub open spec fn height_of_all(kin: Seq<Kin>, children: Seq<u64>, bound: nat) -> nat
    decreases bound, children.len(),
{
    if children.len() == 0 {
        0
    } else {
        let last = children.last() as nat;
        let others = height_of_all(kin, children.drop_last(), bound);
        let here = if last < bound {
            height(kin, last)
        } else {
            0
        };
        if others >= here {
            others
        } else {
            here
        }
    }
}

/// The links to children that a walk from `id` follows, in order.
pub open spec fn edges_below(kin: Seq<Kin>, id: nat) -> Seq<(nat, nat)>
    decreases id, kin[id as int].children.len() + 1,
{
    if id < kin.len() {
        edges_with(kin, kin[id as int].children, id)
    } else {
        Seq::empty()
    }
}

/// The links that a walk from `id` to `children` and on follows, in order.
pub open spec fn edges_with(kin: Seq<Kin>, children: Seq<u64>, id: nat) -> Seq<(nat, nat)>
    decreases id, children.len(),
{
    if children.len() == 0 {
        Seq::empty()
    } else {
        let last = children.last() as nat;
        edges_with(kin, children.drop_last(), id).push((id, last)) + (if last < id {
            edges_below(kin, last)
        } else {
            Seq::empty()
        })
    }
}

/// What is noted of a node when a walk arrives at it: the node, the depth that
/// the walk gives it, and its number of children.
pub struct Arrival {
    /// The node.
    pub node: nat,
    /// The depth that the walk gives it.
    pub depth: nat,
    /// Its number of children.
    pub children: nat,
}

/// The arrivals of a walk that starts at `id` with `depth` and gives depth zero
/// to all nodes below.
pub open spec fn arrivals(kin: Seq<Kin>, id: nat, depth: nat) -> Seq<Arrival>
    decreases id, kin[id as int].children.len() + 1,
{
    let children = kin[id as int].children;
    seq![Arrival { node: id, depth, children: children.len() }] + arrivals_with(kin, children, id)
}

/// The arrivals of a walk over `children` and all nodes below them.
pub open spec fn arrivals_with(kin: Seq<Kin>, children: Seq<u64>, bound: nat) -> Seq<Arrival>
    decreases bound, children.len(),
{
    if children.len() == 0 {
        Seq::empty()
    } else {
        let last = children.last() as nat;
        arrivals_with(kin, children.drop_last(), bound) + (if last < bound {
            arrivals(kin, last, 0)
        } else {
            Seq::empty()
        })
    }
}

/// A walk over some of the children makes no more arrivals than one over all.
pub proof fn lemma_count_with_prefix(kin: Seq<Kin>, children: Seq<u64>, bound: nat, k: int)
    requires
        0 <= k <= children.len(),
    ensures
        count_with(kin, children.take(k), bound) <= count_with(kin, children, bound),
    decreases children.len(),
{
    if k == children.len() {
        assert(children.take(k) =~= children);
    } else {
        lemma_count_with_prefix(kin, children.drop_last(), bound, k);
        assert(children.drop_last().take(k) =~= children.take(k));
    }
}

/// A walk over some of the children reaches no deeper than one over all.
pub proof fn lemma_height_prefix(kin: Seq<Kin>, children: Seq<u64>, bound: nat, k: int)
    requires
        0 <= k <= children.len(),
    ensures
        height_of_all(kin, children.take(k), bound) <= height_of_all(kin, children, bound),
    decreases children.len(),
{
    if k == children.len() {
        assert(children.take(k) =~= children);
    } else {
        lemma_height_prefix(kin, children.drop_last(), bound, k);
        assert(children.drop_last().take(k) =~= children.take(k));
    }
}

/// A walk follows as many links as it makes arrivals.
pub proof fn lemma_edges_count(kin: Seq<Kin>, id: nat)
    ensures
        edges_below(kin, id).len() == count_below(kin, id),
    decreases id, kin[id as int].children.len() + 1,
{
    if id < kin.len() {
        lemma_edges_with_count(kin, kin[id as int].children, id);
    }
}

proof fn lemma_edges_with_count(kin: Seq<Kin>, children: Seq<u64>, id: nat)
    ensures
        edges_with(kin, children, id).len() == count_with(kin, children, id),
    decreases id, children.len(),
{
    if children.len() > 0 {
        lemma_edges_with_count(kin, children.drop_last(), id);
        if (children.last() as nat) < id {
            lemma_edges_count(kin, children.last() as nat);
        }
    }
}

/// Every link that a walk follows leads from a node to one of its children.
pub proof fn lemma_edges_are_links(kin: Seq<Kin>, id: nat, k: int)
    requires
        well_linked(kin),
        id < kin.len(),
        0 <= k < edges_below(kin, id).len(),
    ensures
        edges_below(kin, id)[k].0 < kin.len(),
        kin[edges_below(kin, id)[k].0 as int].children.contains(edges_below(kin, id)[k].1 as u64),
    decreases id, kin[id as int].children.len() + 1,
{
    let children = kin[id as int].children;
    assert(forall|j: int| 0 <= j < children.len() ==> children.contains(#[trigger] children[j]));
    lemma_edges_with_are_links(kin, children, id, k);
}

proof fn lemma_edges_with_are_links(kin: Seq<Kin>, children: Seq<u64>, id: nat, k: int)
    requires
        well_linked(kin),
        id < kin.len(),
        forall|j: int|
            0 <= j < children.len() ==> kin[id as int].children.contains(#[trigger] children[j]),
        0 <= k < edges_with(kin, children, id).len(),
    ensures
        edges_with(kin, children, id)[k].0 < kin.len(),
        kin[edges_with(kin, children, id)[k].0 as int].children.contains(
            edges_with(kin, children, id)[k].1 as u64,
        ),
    decreases id, children.len(),
{
    let init = children.drop_last();
    let last = children.last() as nat;
    let head = edges_with(kin, init, id);
    if k < head.len() {
        assert(forall|j: int| 0 <= j < init.len() ==> init[j] == children[j]);
        lemma_edges_with_are_links(kin, init, id, k);
    } else if k == head.len() {
        assert(children[children.len() - 1] == children.last());
    } else {
        lemma_edges_are_links(kin, last, k - head.len() - 1);
    }
}

/// A walk that notes its arrivals notes its start, and then one for each node
/// below as often as it is counted.
pub proof fn lemma_arrivals_count(kin: Seq<Kin>, id: nat, depth: nat)
    requires
        well_linked(kin),
        id < kin.len(),
    ensures
        arrivals(kin, id, depth).len() == 1 + count_below(kin, id),
    decreases id, kin[id as int].children.len() + 1,
{
    let children = kin[id as int].children;
    assert forall|k: int| 0 <= k < children.len() implies #[trigger] children[k] < id by {
        assert(kin[id as int].children[k] < id);
    }
    lemma_arrivals_with_count(kin, children, id);
}

proof fn lemma_arrivals_with_count(kin: Seq<Kin>, children: Seq<u64>, bound: nat)
    requires
        well_linked(kin),
        bound <= kin.len(),
        forall|k: int| 0 <= k < children.len() ==> #[trigger] children[k] < bound,
    ensures
        arrivals_with(kin, children, bound).len() == count_with(kin, children, bound),
    decreases bound, children.len(),
{
    if children.len() > 0 {
        assert(children[children.len() - 1] == children.last());
        assert(forall|k: int|
            0 <= k < children.drop_last().len() ==> children.drop_last()[k] == children[k]);
        lemma_arrivals_with_count(kin, children.drop_last(), bound);
        lemma_arrivals_count(kin, children.last() as nat, 0);
    }
}

/// The arrivals that are still ahead of a walk that has `pending` nodes to
/// start from.
pub open spec fn pending_arrivals(kin: Seq<Kin>, pending: Seq<u64>) -> nat
    decreases pending.len(),
{
    if pending.len() == 0 {
        0
    } else {
        pending_arrivals(kin, pending.drop_last()) + 1 + count_below(kin, pending.last() as nat)
    }
}

/// What is pending in two lists is pending in their concatenation.
pub proof fn lemma_pending_concat(kin: Seq<Kin>, a: Seq<u64>, b: Seq<u64>)
    ensures
        pending_arrivals(kin, a + b) == pending_arrivals(kin, a) + pending_arrivals(kin, b),
    decreases b.len(),
{
    if b.len() == 0 {
        assert(a + b =~= a);
    } else {
        assert((a + b).drop_last() =~= a + b.drop_last());
        lemma_pending_concat(kin, a, b.drop_last());
    }
}

/// What is below a node is pending in its children.
pub proof fn lemma_pending_children(kin: Seq<Kin>, id: nat)
    requires
        well_linked(kin),
        id < kin.len(),
    ensures
        pending_arrivals(kin, kin[id as int].children) == count_below(kin, id),
{
    let children = kin[id as int].children;
    assert forall|k: int| 0 <= k < children.len() implies #[trigger] children[k] < id by {
        assert(kin[id as int].children[k] < id);
    }
    lemma_pending_with(kin, children, id);
}

proof fn lemma_pending_with(kin: Seq<Kin>, children: Seq<u64>, bound: nat)
    requires
        forall|k: int| 0 <= k < children.len() ==> #[trigger] children[k] < bound,
    ensures
        pending_arrivals(kin, children) == count_with(kin, children, bound),
    decreases children.len(),
{
    if children.len() > 0 {
        assert(children[children.len() - 1] == children.last());
        assert(forall|k: int|
            0 <= k < children.drop_last().len() ==> children.drop_last()[k] == children[k]);
        lemma_pending_with(kin, children.drop_last(), bound);
    }
}

/// No node is held more than once.
pub open spec fn held_once(kin: Seq<Kin>) -> bool {
    forall|i: int, k: int, j: int, l: int|
        0 <= i < kin.len() && 0 <= k < kin[i].children.len() && 0 <= j < kin.len() && 0 <= l
            < kin[j].children.len() && #[trigger] kin[i].children[k]
            == #[trigger] kin[j].children[l] ==> i == j && k == l
}

/// The nodes below `id`, without `id` itself.
pub open spec fn nodes_below(kin: Seq<Kin>, id: nat) -> Set<int> {
    Set::new(|k: int| k != id && is_self_or_descendant(kin, id as int, k))
}

/// The nodes that are one of `children` or below one of them.
pub open spec fn nodes_with(kin: Seq<Kin>, children: Seq<u64>) -> Set<int> {
    Set::new(
        |below: int|
            exists|k: int|
                0 <= k < children.len() && is_self_or_descendant(
                    kin,
                    #[trigger] children[k] as int,
                    below,
                ),
    )
}

/// Where no node is held more than once, the holder of a node is its parent.
pub proof fn lemma_holder_is_parent(kin: Seq<Kin>, id: int, k: int)
    requires
        well_linked(kin),
        held_once(kin),
        0 <= id < kin.len(),
        0 <= k < kin[id].children.len(),
    ensures
        kin[id].children[k] < id,
        kin[kin[id].children[k] as int].parent == Some(id as u64),
{
    let child = kin[id].children[k] as int;
    assert(kin[id].children[k] < id);
    assert(is_last_holder(kin, child, kin[child].parent));
    assert(kin[id].children.contains(child as u64));
    lemma_parent_is_later(kin, child);
    let p = kin[child].parent->0 as int;
    let l = choose|l: int| 0 <= l < kin[p].children.len() && kin[p].children[l] == child as u64;
    assert(kin[p].children[l] == kin[id].children[k]);
}

/// Where no node is held more than once, the nodes that hold a node, or hold one
/// that does, are its ancestors.
pub proof fn lemma_descendants_have_their_ancestors(kin: Seq<Kin>, id: int, below: int)
    requires
        well_linked(kin),
        held_once(kin),
        0 <= id < kin.len(),
        is_self_or_descendant(kin, id, below),
    ensures
        0 <= below < kin.len(),
        is_self_or_ancestor(kin, below, id),
    decreases id,
{
    if below != id {
        let k = choose|k: int|
            0 <= k < kin[id].children.len() && #[trigger] kin[id].children[k] < id
                && is_self_or_descendant(kin, kin[id].children[k] as int, below);
        let child = kin[id].children[k] as int;
        lemma_descendants_have_their_ancestors(kin, child, below);
        lemma_holder_is_parent(kin, id, k);
        lemma_ancestor_step(kin, below, child);
    }
}

/// Of two ancestors of a node, one is an ancestor of the other.
pub proof fn lemma_ancestors_are_in_line(kin: Seq<Kin>, id: int, one: int, other: int)
    requires
        is_self_or_ancestor(kin, id, one),
        is_self_or_ancestor(kin, id, other),
    ensures
        is_self_or_ancestor(kin, one, other) || is_self_or_ancestor(kin, other, one),
    decreases kin.len() - id,
{
    if one != id && other != id {
        lemma_ancestors_are_in_line(kin, kin[id].parent->0 as int, one, other);
    }
}

/// Where no node is held more than once, nothing is below two children of a
/// node.
proof fn lemma_children_share_nothing(kin: Seq<Kin>, id: int, k: int, l: int, below: int)
    requires
        well_linked(kin),
        held_once(kin),
        0 <= id < kin.len(),
        0 <= k < kin[id].children.len(),
        0 <= l < kin[id].children.len(),
        is_self_or_descendant(kin, kin[id].children[k] as int, below),
        is_self_or_descendant(kin, kin[id].children[l] as int, below),
    ensures
        k == l,
{
    let one = kin[id].children[k] as int;
    let other = kin[id].children[l] as int;
    lemma_holder_is_parent(kin, id, k);
    lemma_holder_is_parent(kin, id, l);
    lemma_descendants_have_their_ancestors(kin, one, below);
    lemma_descendants_have_their_ancestors(kin, other, below);
    lemma_ancestors_are_in_line(kin, below, one, other);
    if one != other {
        if is_self_or_ancestor(kin, one, other) {
            assert(is_self_or_ancestor(kin, id, other));
            lemma_ancestors_hold_their_descendants(kin, id, other);
        } else {
            assert(is_self_or_ancestor(kin, id, one));
            lemma_ancestors_hold_their_descendants(kin, id, one);
        }
    } else {
        assert(kin[id].children[k] == kin[id].children[l]);
    }
}

/// Where no node is held more than once, a walk arrives at each node below its
/// start exactly once: the count of its arrivals is the number of those nodes.
pub proof fn lemma_count_is_number_of_nodes_below(kin: Seq<Kin>, id: nat)
    requires
        well_linked(kin),
        held_once(kin),
        id < kin.len(),
    ensures
        nodes_below(kin, id).finite(),
        nodes_below(kin, id).len() == count_below(kin, id),
    decreases id, kin[id as int].children.len() + 1,
{
    let children = kin[id as int].children;
    lemma_count_of_first_children(kin, id, children.len() as int);
    assert(children.take(children.len() as int) =~= children);
    assert forall|below: int| nodes_below(kin, id).contains(below) <==> nodes_with(
        kin,
        children,
    ).contains(below) by {
        if nodes_below(kin, id).contains(below) {
            let k = choose|k: int|
                0 <= k < children.len() && #[trigger] kin[id as int].children[k] < id
                    && is_self_or_descendant(kin, kin[id as int].children[k] as int, below);
            assert(is_self_or_descendant(kin, children[k] as int, below));
        }
        if nodes_with(kin, children).contains(below) {
            let k = choose|k: int|
                0 <= k < children.len() && is_self_or_descendant(
                    kin,
                    #[trigger] children[k] as int,
                    below,
                );
            lemma_child_is_descendant(kin, id as int, k, below);
            assert(kin[id as int].children[k] < id);
            lemma_descendants_have_their_ancestors(kin, children[k] as int, below);
            lemma_ancestors_hold_their_descendants(kin, below, children[k] as int);
        }
    }
    assert(nodes_below(kin, id) =~= nodes_with(kin, children));
}

proof fn lemma_count_of_first_children(kin: Seq<Kin>, id: nat, n: int)
    requires
        well_linked(kin),
        held_once(kin),
        id < kin.len(),
        0 <= n <= kin[id as int].children.len(),
    ensures
        nodes_with(kin, kin[id as int].children.take(n)).finite(),
        nodes_with(kin, kin[id as int].children.take(n)).len() == count_with(
            kin,
            kin[id as int].children.take(n),
            id,
        ),
    decreases id, n,
{
    let children = kin[id as int].children;
    let now = children.take(n);
    if n == 0 {
        assert(nodes_with(kin, now) =~= Set::<int>::empty());
    } else {
        let init = children.take(n - 1);
        let last = children[n - 1] as nat;
        assert(kin[id as int].children[n - 1] < id);
        assert(now.drop_last() =~= init);
        assert(now.last() == children[n - 1]);
        lemma_count_of_first_children(kin, id, n - 1);
        lemma_count_is_number_of_nodes_below(kin, last);
        let before = nodes_with(kin, init);
        let below = nodes_below(kin, last);
        let new = below.insert(last as int);
        assert(!below.contains(last as int));
        assert forall|x: int| nodes_with(kin, now).contains(x) <==> before.union(new).contains(
            x,
        ) by {
            if nodes_with(kin, now).contains(x) {
                let k = choose|k: int|
                    0 <= k < now.len() && is_self_or_descendant(kin, #[trigger] now[k] as int, x);
                if k < n - 1 {
                    assert(is_self_or_descendant(kin, init[k] as int, x));
                }
            }
            if before.contains(x) {
                let k = choose|k: int|
                    0 <= k < init.len() && is_self_or_descendant(kin, #[trigger] init[k] as int, x);
                assert(is_self_or_descendant(kin, now[k] as int, x));
            }
            if new.contains(x) {
                assert(is_self_or_descendant(kin, now[n - 1] as int, x));
            }
        }
        assert(nodes_with(kin, now) =~= before.union(new));
        assert forall|x: int| !(before.contains(x) && new.contains(x)) by {
            if before.contains(x) && new.contains(x) {
                let k = choose|k: int|
                    0 <= k < init.len() && is_self_or_descendant(kin, #[trigger] init[k] as int, x);
                assert(init[k] == children[k]);
                lemma_children_share_nothing(kin, id as int, k, n - 1, x);
            }
        }
        assert(before.disjoint(new));
        vstd::set_lib::lemma_set_disjoint_lens(before, new);
    }
}

} // verus!

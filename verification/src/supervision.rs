//! The supervision tree: for every actor, the actors that supervise it and the
//! actors that it supervises.
//!
//! The tree does not look for cycles. Supervision links are meant to form a
//! forest; the operations here are nevertheless defined, and terminate, on
//! every set of links.

use crate::actor_cell::ActorCell;
use crate::actor_set::ids_of;
use crate::actor_set::with_handle;
use crate::actor_set::without_id;
use crate::actor_set::ActorSet;
use crate::messages::ActorId;
use vstd::prelude::*;

verus! {

/// The links of one actor.
struct TreeNode {
    id: ActorId,
    parents: ActorSet,
    children: ActorSet,
}

spec fn has_node(nodes: Seq<TreeNode>, id: ActorId) -> bool {
    exists|i: int| 0 <= i < nodes.len() && nodes[i].id == id
}

spec fn index_of(nodes: Seq<TreeNode>, id: ActorId) -> int {
    choose|i: int| 0 <= i < nodes.len() && nodes[i].id == id
}

spec fn nodes_wf(nodes: Seq<TreeNode>) -> bool {
    &&& forall|i: int, j: int|
        0 <= i < nodes.len() && 0 <= j < nodes.len() && i != j ==> nodes[i].id != nodes[j].id
    &&& forall|i: int|
        0 <= i < nodes.len() ==> (#[trigger] nodes[i]).parents.wf() && nodes[i].children.wf()
}

spec fn parent_cells(nodes: Seq<TreeNode>, id: ActorId) -> Seq<ActorCell> {
    if has_node(nodes, id) {
        nodes[index_of(nodes, id)].parents.handles()
    } else {
        Seq::empty()
    }
}

spec fn child_cells(nodes: Seq<TreeNode>, id: ActorId) -> Seq<ActorCell> {
    if has_node(nodes, id) {
        nodes[index_of(nodes, id)].children.handles()
    } else {
        Seq::empty()
    }
}

proof fn lemma_index_unique(nodes: Seq<TreeNode>, i: int)
    requires
        nodes_wf(nodes),
        0 <= i < nodes.len(),
    ensures
        has_node(nodes, nodes[i].id),
        index_of(nodes, nodes[i].id) == i,
{
}

/// Replacing the node at `at` leaves the record of every other actor alone.
proof fn lemma_other_node_kept(before: Seq<TreeNode>, after: Seq<TreeNode>, at: int, id: ActorId)
    requires
        nodes_wf(before),
        nodes_wf(after),
        0 <= at < before.len(),
        after.len() == before.len(),
        after[at].id == before[at].id,
        forall|k: int| 0 <= k < before.len() && k != at ==> after[k] == before[k],
        id != before[at].id,
    ensures
        parent_cells(after, id) == parent_cells(before, id),
        child_cells(after, id) == child_cells(before, id),
{
    if has_node(before, id) {
        let k = index_of(before, id);
        assert(after[k] == before[k]);
        lemma_index_unique(after, k);
    } else if has_node(after, id) {
        let k = index_of(after, id);
        assert(before[k].id == id);
    }
}

/// Replacing the links of the node at `at` changes the links of that actor
/// only.
proof fn lemma_update_node(before: Seq<TreeNode>, after: Seq<TreeNode>, at: int)
    requires
        nodes_wf(before),
        0 <= at < before.len(),
        after.len() == before.len(),
        after[at].id == before[at].id,
        after[at].parents.wf(),
        after[at].children.wf(),
        forall|k: int| 0 <= k < before.len() && k != at ==> after[k] == before[k],
    ensures
        nodes_wf(after),
        parent_cells(after, before[at].id) == after[at].parents.handles(),
        child_cells(after, before[at].id) == after[at].children.handles(),
        parent_cells(before, before[at].id) == before[at].parents.handles(),
        child_cells(before, before[at].id) == before[at].children.handles(),
        forall|id: ActorId|
            id != before[at].id ==> #[trigger] parent_cells(after, id) == parent_cells(before, id),
        forall|id: ActorId|
            id != before[at].id ==> #[trigger] child_cells(after, id) == child_cells(before, id),
{
    assert forall|i: int, j: int|
        0 <= i < after.len() && 0 <= j < after.len() && i != j implies after[i].id
        != after[j].id by {
        assert(after[i].id == before[i].id);
        assert(after[j].id == before[j].id);
    }
    assert forall|i: int| 0 <= i < after.len() implies (#[trigger] after[i]).parents.wf()
        && after[i].children.wf() by {
        if i != at {
            assert(after[i] == before[i]);
        }
    }
    lemma_index_unique(before, at);
    lemma_index_unique(after, at);
    assert forall|id: ActorId| id != before[at].id implies #[trigger] parent_cells(after, id)
        == parent_cells(before, id) by {
        lemma_other_node_kept(before, after, at, id);
    }
    assert forall|id: ActorId| id != before[at].id implies #[trigger] child_cells(after, id)
        == child_cells(before, id) by {
        lemma_other_node_kept(before, after, at, id);
    }
}

/// A node without links, added at the end, shows no links for its actor and
/// hides the record of no other actor.
proof fn lemma_pushed_node_kept(before: Seq<TreeNode>, node: TreeNode, id: ActorId)
    requires
        nodes_wf(before),
        !has_node(before, node.id),
        node.parents.handles() == Seq::<ActorCell>::empty(),
        node.children.handles() == Seq::<ActorCell>::empty(),
    ensures
        parent_cells(before.push(node), id) == parent_cells(before, id),
        child_cells(before.push(node), id) == child_cells(before, id),
{
    let after = before.push(node);
    if has_node(before, id) {
        let k = index_of(before, id);
        assert(after[k] == before[k]);
        assert(has_node(after, id));
        let m = index_of(after, id);
        if m < before.len() {
            assert(after[m] == before[m]);
        }
    } else if has_node(after, id) {
        let k = index_of(after, id);
        if k < before.len() {
            assert(before[k].id == id);
        }
    }
}

/// Adding a node without links changes the links of no actor.
proof fn lemma_push_node(before: Seq<TreeNode>, node: TreeNode)
    requires
        nodes_wf(before),
        !has_node(before, node.id),
        node.parents.wf(),
        node.children.wf(),
        node.parents.handles() == Seq::<ActorCell>::empty(),
        node.children.handles() == Seq::<ActorCell>::empty(),
    ensures
        nodes_wf(before.push(node)),
        forall|id: ActorId| #[trigger]
            parent_cells(before.push(node), id) == parent_cells(before, id),
        forall|id: ActorId| #[trigger]
            child_cells(before.push(node), id) == child_cells(before, id),
{
    let after = before.push(node);
    assert forall|i: int, j: int|
        0 <= i < after.len() && 0 <= j < after.len() && i != j implies after[i].id
        != after[j].id by {
        if i < before.len() {
            assert(after[i] == before[i]);
        }
        if j < before.len() {
            assert(after[j] == before[j]);
        }
    }
    assert forall|i: int| 0 <= i < after.len() implies (#[trigger] after[i]).parents.wf()
        && after[i].children.wf() by {
        if i < before.len() {
            assert(after[i] == before[i]);
        }
    }
    assert forall|id: ActorId| #[trigger]
        parent_cells(after, id) == parent_cells(before, id) by {
        lemma_pushed_node_kept(before, node, id);
    }
    assert forall|id: ActorId| #[trigger]
        child_cells(after, id) == child_cells(before, id) by {
        lemma_pushed_node_kept(before, node, id);
    }
}

/// Every identifier that some record lists as a child.
spec fn child_universe(nodes: Seq<TreeNode>) -> Set<ActorId>
    decreases nodes.len(),
{
    if nodes.len() == 0 {
        Set::empty()
    } else {
        child_universe(nodes.drop_last()).union(nodes.last().children.ids())
    }
}

proof fn lemma_child_universe(nodes: Seq<TreeNode>)
    ensures
        child_universe(nodes).finite(),
        forall|i: int, c: ActorId|
            0 <= i < nodes.len() && (#[trigger] nodes[i]).children.ids().contains(c)
                ==> #[trigger] child_universe(nodes).contains(c),
    decreases nodes.len(),
{
    if nodes.len() > 0 {
        let rest = nodes.drop_last();
        lemma_child_universe(rest);
        vstd::seq_lib::seq_to_set_is_finite(
            ids_of(nodes.last().children.handles()),
        );
        vstd::set_lib::lemma_set_union_finite_iff(
            child_universe(rest),
            nodes.last().children.ids(),
        );
        assert forall|i: int, c: ActorId|
            0 <= i < nodes.len() && (#[trigger] nodes[i]).children.ids().contains(
                c,
            ) implies #[trigger] child_universe(nodes).contains(c) by {
            if i < nodes.len() - 1 {
                assert(rest[i] == nodes[i]);
            }
        }
    }
}

/// The supervision links of all actors.
pub struct SupervisionTree {
    nodes: Vec<TreeNode>,
}

impl SupervisionTree {
    /// The tree's invariant: every actor has one record of links, and within a
    /// record no supervisor and no child is listed twice.
    pub closed spec fn wf(self) -> bool {
        nodes_wf(self.nodes@)
    }

    /// The handles of the actors that supervise `id`.
    pub closed spec fn parent_handles(self, id: ActorId) -> Seq<ActorCell> {
        parent_cells(self.nodes@, id)
    }

    /// The handles of the actors that `id` supervises.
    pub closed spec fn child_handles(self, id: ActorId) -> Seq<ActorCell> {
        child_cells(self.nodes@, id)
    }

    /// The actors that supervise `id`.
    pub open spec fn parents_of(self, id: ActorId) -> Set<ActorId> {
        ids_of(self.parent_handles(id)).to_set()
    }

    /// The actors that `id` supervises.
    pub open spec fn children_of(self, id: ActorId) -> Set<ActorId> {
        ids_of(self.child_handles(id)).to_set()
    }

    /// Whether `parent` supervises `child` in both records: `child` lists
    /// `parent` among its supervisors and `parent` lists `child` among its
    /// children.
    pub open spec fn linked(self, child: ActorId, parent: ActorId) -> bool {
        self.parents_of(child).contains(parent) && self.children_of(parent).contains(child)
    }

    /// Whether neither record holds the link from `parent` to `child`.
    pub open spec fn unlinked(self, child: ActorId, parent: ActorId) -> bool {
        !self.parents_of(child).contains(parent) && !self.children_of(parent).contains(child)
    }

    /// Whether `other` holds the same links as `self`, but for the supervisors
    /// of `actor`.
    pub open spec fn same_but_parents_of(self, other: SupervisionTree, actor: ActorId) -> bool {
        &&& forall|id: ActorId|
            id != actor ==> #[trigger] self.parent_handles(id) == other.parent_handles(id)
        &&& forall|id: ActorId| #[trigger] self.child_handles(id) == other.child_handles(id)
    }

    /// Whether `other` holds the same links as `self`, but for the children of
    /// `actor`.
    pub open spec fn same_but_children_of(self, other: SupervisionTree, actor: ActorId) -> bool {
        &&& forall|id: ActorId| #[trigger] self.parent_handles(id) == other.parent_handles(id)
        &&& forall|id: ActorId|
            id != actor ==> #[trigger] self.child_handles(id) == other.child_handles(id)
    }

    /// Whether `self` is `before` with the link from `parent` to `child` added
    /// on both sides, and every other link as it was.
    pub open spec fn is_link_of(
        self,
        before: SupervisionTree,
        child: ActorId,
        parent: ActorId,
    ) -> bool {
        &&& self.parents_of(child) == before.parents_of(child).insert(parent)
        &&& self.children_of(parent) == before.children_of(parent).insert(child)
        &&& forall|id: ActorId|
            id != child ==> #[trigger] self.parents_of(id) == before.parents_of(id)
        &&& forall|id: ActorId|
            id != parent ==> #[trigger] self.children_of(id) == before.children_of(id)
    }

    /// Whether `self` is `before` with the link from `parent` to `child` removed
    /// on both sides, and every other link as it was.
    pub open spec fn is_unlink_of(
        self,
        before: SupervisionTree,
        child: ActorId,
        parent: ActorId,
    ) -> bool {
        &&& self.parents_of(child) == before.parents_of(child).remove(parent)
        &&& self.children_of(parent) == before.children_of(parent).remove(child)
        &&& forall|id: ActorId|
            id != child ==> #[trigger] self.parents_of(id) == before.parents_of(id)
        &&& forall|id: ActorId|
            id != parent ==> #[trigger] self.children_of(id) == before.children_of(id)
    }

    /// Every actor that some actor supervises.
    pub closed spec fn supervised(self) -> Set<ActorId> {
        child_universe(self.nodes@)
    }

    /// Whether `parent` supervises `child`, as `parent`'s record has it.
    pub open spec fn supervises(self, parent: ActorId, child: ActorId) -> bool {
        self.children_of(parent).contains(child)
    }

    /// The supervised actors are finitely many, and every child of every actor
    /// is among them.
    pub proof fn lemma_supervised(self)
        requires
            self.wf(),
        ensures
            self.supervised().finite(),
            forall|parent: ActorId, child: ActorId| #[trigger]
                self.supervises(parent, child) ==> self.supervised().contains(child),
    {
        lemma_child_universe(self.nodes@);
        assert forall|parent: ActorId, child: ActorId| #[trigger]
            self.supervises(parent, child) implies self.supervised().contains(child) by {
            if has_node(self.nodes@, parent) {
                let at = index_of(self.nodes@, parent);
                assert(self.nodes@[at].children.ids().contains(child));
            } else {
                assert(ids_of(self.child_handles(parent)) =~= Seq::<
                    ActorId,
                >::empty());
            }
        }
    }

    /// A tree without links.
    pub fn new() -> (tree: SupervisionTree)
        ensures
            tree.wf(),
            forall|id: ActorId| #[trigger] tree.parent_handles(id) == Seq::<ActorCell>::empty(),
            forall|id: ActorId| #[trigger] tree.child_handles(id) == Seq::<ActorCell>::empty(),
    {
        SupervisionTree { nodes: Vec::new() }
    }

    /// The position of the record of `id`, if there is one.
    fn node_index(&self, id: ActorId) -> (found: Option<usize>)
        requires
            self.wf(),
        ensures
            match found {
                Some(at) => at < self.nodes@.len() && self.nodes@[at as int].id == id && index_of(
                    self.nodes@,
                    id,
                ) == at && has_node(self.nodes@, id),
                None => !has_node(self.nodes@, id),
            },
    {
        let mut at: usize = 0;
        while at < self.nodes.len()
            invariant
                self.wf(),
                at <= self.nodes.len(),
                forall|k: int| 0 <= k < at ==> self.nodes@[k].id != id,
            decreases self.nodes.len() - at,
        {
            if self.nodes[at].id == id {
                proof {
                    lemma_index_unique(self.nodes@, at as int);
                }
                return Some(at);
            }
            at += 1;
        }
        None
    }

    /// Replacing the parents in the record at `at` changes the parents of
    /// that record's actor and nothing else.
    proof fn lemma_parents_replaced(
        self,
        start: SupervisionTree,
        mid: SupervisionTree,
        at: int,
        actor: ActorId,
    )
        requires
            mid.wf(),
            0 <= at < mid.nodes@.len(),
            mid.nodes@[at].id == actor,
            self.nodes@.len() == mid.nodes@.len(),
            self.nodes@[at].id == actor,
            self.nodes@[at].parents.wf(),
            self.nodes@[at].children == mid.nodes@[at].children,
            forall|k: int| 0 <= k < mid.nodes@.len() && k != at ==> self.nodes@[k] == mid.nodes@[k],
            forall|id: ActorId| #[trigger] mid.parent_handles(id) == start.parent_handles(id),
            forall|id: ActorId| #[trigger] mid.child_handles(id) == start.child_handles(id),
        ensures
            self.wf(),
            self.parent_handles(actor) == self.nodes@[at].parents.handles(),
            start.parent_handles(actor) == mid.nodes@[at].parents.handles(),
            self.same_but_parents_of(start, actor),
    {
        lemma_update_node(mid.nodes@, self.nodes@, at);
        assert(mid.parent_handles(actor) == start.parent_handles(actor));
        assert forall|id: ActorId| id != actor implies #[trigger] self.parent_handles(id)
            == start.parent_handles(id) by {
            assert(mid.parent_handles(id) == start.parent_handles(id));
            assert(parent_cells(self.nodes@, id) == parent_cells(mid.nodes@, id));
        }
        assert forall|id: ActorId| #[trigger]
            self.child_handles(id) == start.child_handles(id) by {
            assert(mid.child_handles(id) == start.child_handles(id));
            if id != actor {
                assert(child_cells(self.nodes@, id) == child_cells(mid.nodes@, id));
            }
        }
    }

    /// Replacing the children in the record at `at` changes the children of
    /// that record's actor and nothing else.
    proof fn lemma_children_replaced(
        self,
        start: SupervisionTree,
        mid: SupervisionTree,
        at: int,
        actor: ActorId,
    )
        requires
            mid.wf(),
            0 <= at < mid.nodes@.len(),
            mid.nodes@[at].id == actor,
            self.nodes@.len() == mid.nodes@.len(),
            self.nodes@[at].id == actor,
            self.nodes@[at].children.wf(),
            self.nodes@[at].parents == mid.nodes@[at].parents,
            forall|k: int| 0 <= k < mid.nodes@.len() && k != at ==> self.nodes@[k] == mid.nodes@[k],
            forall|id: ActorId| #[trigger] mid.parent_handles(id) == start.parent_handles(id),
            forall|id: ActorId| #[trigger] mid.child_handles(id) == start.child_handles(id),
        ensures
            self.wf(),
            self.child_handles(actor) == self.nodes@[at].children.handles(),
            start.child_handles(actor) == mid.nodes@[at].children.handles(),
            self.same_but_children_of(start, actor),
    {
        lemma_update_node(mid.nodes@, self.nodes@, at);
        assert(mid.child_handles(actor) == start.child_handles(actor));
        assert forall|id: ActorId| id != actor implies #[trigger] self.child_handles(id)
            == start.child_handles(id) by {
            assert(mid.child_handles(id) == start.child_handles(id));
            assert(child_cells(self.nodes@, id) == child_cells(mid.nodes@, id));
        }
        assert forall|id: ActorId| #[trigger]
            self.parent_handles(id) == start.parent_handles(id) by {
            assert(mid.parent_handles(id) == start.parent_handles(id));
            if id != actor {
                assert(parent_cells(self.nodes@, id) == parent_cells(mid.nodes@, id));
            }
        }
    }

    /// The position of the record of `id`, which is created without links if
    /// there is none.
    fn node_index_or_new(&mut self, id: ActorId) -> (at: usize)
        requires
            old(self).wf(),
        ensures
            final(self).wf(),
            at < final(self).nodes@.len(),
            final(self).nodes@[at as int].id == id,
            forall|any: ActorId| #[trigger]
                final(self).parent_handles(any) == old(self).parent_handles(any),
            forall|any: ActorId| #[trigger]
                final(self).child_handles(any) == old(self).child_handles(any),
    {
        match self.node_index(id) {
            Some(at) => at,
            None => {
                let node = TreeNode { id, parents: ActorSet::new(), children: ActorSet::new() };
                proof {
                    lemma_push_node(self.nodes@, node);
                }
                self.nodes.push(node);
                self.nodes.len() - 1
            },
        }
    }

    /// Records `parent` as a supervisor of `actor`. The supervisor's own record is
    /// not touched; a supervisor that is recorded already stays recorded once.
    pub fn insert_parent(&mut self, actor: ActorId, parent: ActorCell)
        requires
            old(self).wf(),
        ensures
            final(self).wf(),
            final(self).parents_of(actor) == old(self).parents_of(actor).insert(parent.id()),
            final(self).parent_handles(actor) == with_handle(
                old(self).parent_handles(actor),
                parent,
            ),
            final(self).same_but_parents_of(*old(self), actor),
    {
        let at = self.node_index_or_new(actor);
        let ghost mid = *self;
        let mut node = self.nodes.remove(at);
        node.parents.insert(parent);
        self.nodes.insert(at, node);
        proof {
            self.lemma_parents_replaced(*old(self), mid, at as int, actor);
        }
    }

    /// Records `child` as supervised by `actor`. The child's own record is not
    /// touched; a child that is recorded already stays recorded once.
    pub fn insert_child(&mut self, actor: ActorId, child: ActorCell)
        requires
            old(self).wf(),
        ensures
            final(self).wf(),
            final(self).children_of(actor) == old(self).children_of(actor).insert(child.id()),
            final(self).child_handles(actor) == with_handle(
                old(self).child_handles(actor),
                child,
            ),
            final(self).same_but_children_of(*old(self), actor),
    {
        let at = self.node_index_or_new(actor);
        let ghost mid = *self;
        let mut node = self.nodes.remove(at);
        node.children.insert(child);
        self.nodes.insert(at, node);
        proof {
            self.lemma_children_replaced(*old(self), mid, at as int, actor);
        }
    }

    /// Removes `parent` from the supervisors of `actor`. Nothing happens where it
    /// is not among them.
    pub fn remove_parent(&mut self, actor: ActorId, parent: ActorId)
        requires
            old(self).wf(),
        ensures
            final(self).wf(),
            final(self).parents_of(actor) == old(self).parents_of(actor).remove(parent),
            final(self).parent_handles(actor) == without_id(
                old(self).parent_handles(actor),
                parent,
            ),
            final(self).same_but_parents_of(*old(self), actor),
    {
        match self.node_index(actor) {
            Some(at) => {
                let mut node = self.nodes.remove(at);
                let _ = node.parents.remove(parent);
                self.nodes.insert(at, node);
                proof {
                    self.lemma_parents_replaced(*old(self), *old(self), at as int, actor);
                }
            },
            None => {
                proof {
                    let held = self.parent_handles(actor);
                    assert(held == Seq::<ActorCell>::empty());
                    assert(ids_of(held).to_set() =~= ids_of(held).to_set().remove(parent));
                    assert(!crate::actor_set::holds(held, parent));
                }
            },
        }
    }

    /// Removes `child` from the children of `actor`. Nothing happens where it is
    /// not among them.
    pub fn remove_child(&mut self, actor: ActorId, child: ActorId)
        requires
            old(self).wf(),
        ensures
            final(self).wf(),
            final(self).children_of(actor) == old(self).children_of(actor).remove(child),
            final(self).child_handles(actor) == without_id(
                old(self).child_handles(actor),
                child,
            ),
            final(self).same_but_children_of(*old(self), actor),
    {
        match self.node_index(actor) {
            Some(at) => {
                let mut node = self.nodes.remove(at);
                let _ = node.children.remove(child);
                self.nodes.insert(at, node);
                proof {
                    self.lemma_children_replaced(*old(self), *old(self), at as int, actor);
                }
            },
            None => {
                proof {
                    let held = self.child_handles(actor);
                    assert(held == Seq::<ActorCell>::empty());
                    assert(ids_of(held).to_set() =~= ids_of(held).to_set().remove(child));
                    assert(!crate::actor_set::holds(held, child));
                }
            },
        }
    }

    /// Whether `parent` is recorded as a supervisor of `actor`.
    pub fn is_child_of(&self, actor: ActorId, parent: ActorId) -> (held: bool)
        requires
            self.wf(),
        ensures
            held == self.parents_of(actor).contains(parent),
    {
        match self.node_index(actor) {
            Some(at) => self.nodes[at].parents.contains(parent),
            None => {
                proof {
                    assert(ids_of(self.parent_handles(actor)) =~= Seq::<
                        ActorId,
                    >::empty());
                }
                false
            },
        }
    }

    /// Whether `child` is recorded as supervised by `actor`.
    pub fn is_supervisor_of(&self, actor: ActorId, child: ActorId) -> (held: bool)
        requires
            self.wf(),
        ensures
            held == self.children_of(actor).contains(child),
    {
        match self.node_index(actor) {
            Some(at) => self.nodes[at].children.contains(child),
            None => {
                proof {
                    assert(ids_of(self.child_handles(actor)) =~= Seq::<
                        ActorId,
                    >::empty());
                }
                false
            },
        }
    }

    /// The handles of the actors that `actor` supervises.
    pub fn children(&self, actor: ActorId) -> (cells: Vec<ActorCell>)
        requires
            self.wf(),
        ensures
            cells@ == self.child_handles(actor),
    {
        match self.node_index(actor) {
            Some(at) => self.nodes[at].children.to_vec(),
            None => Vec::new(),
        }
    }

    /// The handles of the actors that supervise `actor`.
    pub fn parents(&self, actor: ActorId) -> (cells: Vec<ActorCell>)
        requires
            self.wf(),
        ensures
            cells@ == self.parent_handles(actor),
    {
        match self.node_index(actor) {
            Some(at) => self.nodes[at].parents.to_vec(),
            None => Vec::new(),
        }
    }
}

impl ActorCell {
    /// Puts this actor under the supervision of `supervisor`: the supervisor is
    /// recorded among this actor's supervisors, and this actor among the
    /// supervisor's children. Linking twice is the same as linking once.
    pub fn link(&self, supervisor: ActorCell, tree: &mut SupervisionTree)
        requires
            old(tree).wf(),
        ensures
            final(tree).wf(),
            final(tree).is_link_of(*old(tree), self.id(), supervisor.id()),
            final(tree).linked(self.id(), supervisor.id()),
            final(tree).parent_handles(self.id()) == with_handle(
                old(tree).parent_handles(self.id()),
                supervisor,
            ),
            final(tree).child_handles(supervisor.id()) == with_handle(
                old(tree).child_handles(supervisor.id()),
                *self,
            ),
            forall|id: ActorId|
                id != self.id() ==> #[trigger] final(tree).parent_handles(id) == old(
                    tree,
                ).parent_handles(id),
            forall|id: ActorId|
                id != supervisor.id() ==> #[trigger] final(tree).child_handles(id) == old(
                    tree,
                ).child_handles(id),
    {
        let child = self.get_id();
        let parent = supervisor.get_id();
        tree.insert_child(parent, self.clone());
        let ghost mid = *tree;
        tree.insert_parent(child, supervisor);
        proof {
            assert(tree.child_handles(parent) == mid.child_handles(parent));
            assert(mid.parent_handles(child) == old(tree).parent_handles(child));
            assert(tree.children_of(parent) == mid.children_of(parent));
            assert(mid.parents_of(child) == old(tree).parents_of(child));
            assert forall|id: ActorId| id != child implies #[trigger] tree.parents_of(id)
                == old(tree).parents_of(id) by {
                assert(tree.parent_handles(id) == mid.parent_handles(id));
                assert(mid.parent_handles(id) == old(tree).parent_handles(id));
            }
            assert forall|id: ActorId| id != parent implies #[trigger] tree.children_of(id)
                == old(tree).children_of(id) by {
                assert(tree.child_handles(id) == mid.child_handles(id));
                assert(mid.child_handles(id) == old(tree).child_handles(id));
            }
        }
    }

    /// Takes this actor out of the supervision of `supervisor`, on both sides.
    /// Where no such link is recorded, nothing changes.
    pub fn unlink(&self, supervisor: ActorCell, tree: &mut SupervisionTree)
        requires
            old(tree).wf(),
        ensures
            final(tree).wf(),
            final(tree).is_unlink_of(*old(tree), self.id(), supervisor.id()),
            final(tree).unlinked(self.id(), supervisor.id()),
            final(tree).parent_handles(self.id()) == without_id(
                old(tree).parent_handles(self.id()),
                supervisor.id(),
            ),
            final(tree).child_handles(supervisor.id()) == without_id(
                old(tree).child_handles(supervisor.id()),
                self.id(),
            ),
            forall|id: ActorId|
                id != self.id() ==> #[trigger] final(tree).parent_handles(id) == old(
                    tree,
                ).parent_handles(id),
            forall|id: ActorId|
                id != supervisor.id() ==> #[trigger] final(tree).child_handles(id) == old(
                    tree,
                ).child_handles(id),
    {
        let child = self.get_id();
        let parent = supervisor.get_id();
        tree.remove_child(parent, child);
        let ghost mid = *tree;
        tree.remove_parent(child, parent);
        proof {
            assert(tree.child_handles(parent) == mid.child_handles(parent));
            assert(mid.parent_handles(child) == old(tree).parent_handles(child));
            assert(tree.children_of(parent) == mid.children_of(parent));
            assert(mid.parents_of(child) == old(tree).parents_of(child));
            assert forall|id: ActorId| id != child implies #[trigger] tree.parents_of(id)
                == old(tree).parents_of(id) by {
                assert(tree.parent_handles(id) == mid.parent_handles(id));
                assert(mid.parent_handles(id) == old(tree).parent_handles(id));
            }
            assert forall|id: ActorId| id != parent implies #[trigger] tree.children_of(id)
                == old(tree).children_of(id) by {
                assert(tree.child_handles(id) == mid.child_handles(id));
                assert(mid.child_handles(id) == old(tree).child_handles(id));
            }
        }
    }
}

/// One step of a history of links between one child and one parent: a link
/// where `linking` holds, an unlink where it does not.
pub open spec fn is_step(
    after: SupervisionTree,
    before: SupervisionTree,
    linking: bool,
    child: ActorId,
    parent: ActorId,
) -> bool {
    if linking {
        after.is_link_of(before, child, parent)
    } else {
        after.is_unlink_of(before, child, parent)
    }
}

/// Whether each tree of `trees` follows from the one before it by the link or
/// unlink that `ops` names at that place.
pub open spec fn is_history(
    trees: Seq<SupervisionTree>,
    ops: Seq<bool>,
    child: ActorId,
    parent: ActorId,
) -> bool {
    &&& trees.len() == ops.len() + 1
    &&& forall|k: int, next: int|
        0 <= k < ops.len() && next == k + 1 ==> is_step(
            #[trigger] trees[next],
            #[trigger] trees[k],
            ops[k],
            child,
            parent,
        )
}

/// Whatever links and unlinks came before between a child and a parent, the
/// last one decides: after an unlink the link is absent on both sides, after a
/// link it is present on both sides. So a history in which every link is
/// followed by its unlink leaves no link behind.
pub proof fn lemma_last_operation_decides(
    trees: Seq<SupervisionTree>,
    ops: Seq<bool>,
    child: ActorId,
    parent: ActorId,
)
    requires
        is_history(trees, ops, child, parent),
        ops.len() > 0,
    ensures
        !ops.last() ==> trees.last().unlinked(child, parent),
        ops.last() ==> trees.last().linked(child, parent),
{
    let k = ops.len() - 1;
    assert(is_step(trees[k + 1], trees[k], ops[k], child, parent));
}

/// How many links of `ops` are not yet undone by a later unlink: one more for
/// every link, one less for every unlink.
pub open spec fn open_links(ops: Seq<bool>) -> int
    decreases ops.len(),
{
    if ops.len() == 0 {
        0
    } else {
        open_links(ops.drop_last()) + if ops.last() {
            1int
        } else {
            -1int
        }
    }
}

/// Whether `ops` holds as many unlinks as links, each unlink after the link
/// that it undoes.
pub open spec fn is_matched(ops: Seq<bool>) -> bool {
    &&& open_links(ops) == 0
    &&& forall|k: int| 0 <= k <= ops.len() ==> open_links(#[trigger] ops.take(k)) >= 0
}

/// After links and unlinks between a child and a parent that match one
/// another, the parent is not among the child's supervisors and the child is
/// not among the parent's children, provided that they were not linked before
/// the first operation or that there was an operation at all.
pub proof fn lemma_matched_history_leaves_no_link(
    trees: Seq<SupervisionTree>,
    ops: Seq<bool>,
    child: ActorId,
    parent: ActorId,
)
    requires
        is_history(trees, ops, child, parent),
        is_matched(ops),
        ops.len() > 0 || trees[0].unlinked(child, parent),
    ensures
        trees.last().unlinked(child, parent),
{
    if ops.len() > 0 {
        let shorter = ops.take(ops.len() - 1);
        assert(shorter =~= ops.drop_last());
        assert(open_links(shorter) >= 0);
        assert(!ops.last());
        lemma_last_operation_decides(trees, ops, child, parent);
    }
}

/// Links and unlinks between one child and one parent leave every other link
/// of the tree as it was at the start.
pub proof fn lemma_history_keeps_other_links(
    trees: Seq<SupervisionTree>,
    ops: Seq<bool>,
    child: ActorId,
    parent: ActorId,
    other_child: ActorId,
    other_parent: ActorId,
)
    requires
        is_history(trees, ops, child, parent),
        other_child != child || other_parent != parent,
    ensures
        trees.last().parents_of(other_child).contains(other_parent) == trees[0].parents_of(
            other_child,
        ).contains(other_parent),
        trees.last().children_of(other_parent).contains(other_child) == trees[0].children_of(
            other_parent,
        ).contains(other_child),
    decreases ops.len(),
{
    if ops.len() > 0 {
        let k = ops.len() - 1;
        assert(is_step(trees[k + 1], trees[k], ops[k], child, parent));
        let shorter = trees.drop_last();
        let fewer = ops.drop_last();
        assert forall|i: int, next: int| 0 <= i < fewer.len() && next == i + 1 implies is_step(
            #[trigger] shorter[next],
            #[trigger] shorter[i],
            fewer[i],
            child,
            parent,
        ) by {
            assert(is_step(trees[next], trees[i], ops[i], child, parent));
        }
        lemma_history_keeps_other_links(shorter, fewer, child, parent, other_child, other_parent);
        assert(shorter.last() == trees[k]);
        assert(shorter[0] == trees[0]);
        if other_child != child {
            assert(trees[k + 1].parents_of(other_child) == trees[k].parents_of(other_child));
        }
        if other_parent != parent {
            assert(trees[k + 1].children_of(other_parent) == trees[k].children_of(other_parent));
        }
    }
}

} // verus!

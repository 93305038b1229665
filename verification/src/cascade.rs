//! Cascading termination: which actors a termination request reaches, and the
//! fan-out of termination signals and supervision events along the tree.

use crate::actor_cell::ActorCell;
use crate::actor_set::ids_of;
use crate::actor_set::position_in;
use crate::messages::ActorId;
use crate::messages::MessagingErr;
use crate::messages::Signal;
use crate::messages::SupervisionEvent;
use crate::port::delivery_result;
use crate::port::SendFailure;
use crate::status::ActorStatus;
use crate::supervision::SupervisionTree;
use vstd::prelude::*;

verus! {

/// Whether each actor of `path` supervises the one after it.
pub open spec fn is_chain(tree: SupervisionTree, path: Seq<ActorId>) -> bool {
    forall|k: int, next: int|
        0 <= k && next == k + 1 && next < path.len() ==> tree.supervises(
            #[trigger] path[k],
            #[trigger] path[next],
        )
}

/// Whether `actor` is `root` itself, or a child of `root`, or a child of a
/// child, and so on: whether a chain of supervision leads from `root` to it.
pub open spec fn descends(tree: SupervisionTree, root: ActorId, actor: ActorId) -> bool {
    exists|path: Seq<ActorId>|
        path.len() > 0 && path[0] == root && path.last() == actor && #[trigger] is_chain(
            tree,
            path,
        )
}

/// Every actor descends from itself.
pub proof fn lemma_descends_from_itself(tree: SupervisionTree, root: ActorId)
    ensures
        descends(tree, root, root),
{
    let path = seq![root];
    assert(is_chain(tree, path));
}

/// A child of a descendant is a descendant.
pub proof fn lemma_descends_step(
    tree: SupervisionTree,
    root: ActorId,
    parent: ActorId,
    child: ActorId,
)
    requires
        descends(tree, root, parent),
        tree.supervises(parent, child),
    ensures
        descends(tree, root, child),
{
    let path = choose|path: Seq<ActorId>|
        path.len() > 0 && path[0] == root && path.last() == parent && #[trigger] is_chain(
            tree,
            path,
        );
    let longer = path.push(child);
    assert forall|k: int, next: int|
        0 <= k && next == k + 1 && next < longer.len() implies tree.supervises(
        #[trigger] longer[k],
        #[trigger] longer[next],
    ) by {
        if next < path.len() {
            assert(tree.supervises(path[k], path[next]));
        }
    }
    assert(is_chain(tree, longer));
}

/// Descent is transitive: a descendant of a descendant is a descendant.
pub proof fn lemma_descends_transitive(
    tree: SupervisionTree,
    root: ActorId,
    middle: ActorId,
    actor: ActorId,
)
    requires
        descends(tree, root, middle),
        descends(tree, middle, actor),
    ensures
        descends(tree, root, actor),
{
    let path = choose|path: Seq<ActorId>|
        path.len() > 0 && path[0] == middle && path.last() == actor && #[trigger] is_chain(
            tree,
            path,
        );
    lemma_chain_stays_below(tree, root, path, path.len() - 1);
}

/// Every actor on a chain that starts at a descendant of `root` descends from
/// `root`.
proof fn lemma_chain_stays_below(tree: SupervisionTree, root: ActorId, path: Seq<ActorId>, at: int)
    requires
        is_chain(tree, path),
        0 <= at < path.len(),
        descends(tree, root, path[0]),
    ensures
        descends(tree, root, path[at]),
    decreases at,
{
    if at > 0 {
        lemma_chain_stays_below(tree, root, path, at - 1);
        assert(tree.supervises(path[at - 1], path[at]));
        lemma_descends_step(tree, root, path[at - 1], path[at]);
    }
}

/// A set of actors that holds `path[0]` and, with every actor, its children,
/// holds every actor of the chain `path`.
proof fn lemma_closed_holds_chain(
    tree: SupervisionTree,
    closed: Set<ActorId>,
    path: Seq<ActorId>,
    at: int,
)
    requires
        is_chain(tree, path),
        0 <= at < path.len(),
        closed.contains(path[0]),
        forall|parent: ActorId, child: ActorId|
            closed.contains(parent) && #[trigger] tree.supervises(parent, child)
                ==> closed.contains(child),
    ensures
        closed.contains(path[at]),
    decreases at,
{
    if at > 0 {
        lemma_closed_holds_chain(tree, closed, path, at - 1);
        assert(tree.supervises(path[at - 1], path[at]));
    }
}

/// A sequence without repetition, taken from a finite set, is no longer than
/// the set is large.
proof fn lemma_distinct_bounded(ids: Seq<ActorId>, universe: Set<ActorId>)
    requires
        ids.no_duplicates(),
        universe.finite(),
        forall|i: int| 0 <= i < ids.len() ==> universe.contains(#[trigger] ids[i]),
    ensures
        ids.len() <= universe.len(),
{
    ids.unique_seq_to_set();
    assert(ids.to_set().subset_of(universe)) by {
        assert forall|x: ActorId| ids.to_set().contains(x) implies universe.contains(x) by {
            let i = choose|i: int| 0 <= i < ids.len() && ids[i] == x;
            assert(universe.contains(ids[i]));
        }
    }
    vstd::set_lib::lemma_len_subset(ids.to_set(), universe);
}

/// Whether the tree records the handle `cell` among the children of an actor
/// that descends from `root`.
pub open spec fn recorded_below(tree: SupervisionTree, root: ActorId, cell: ActorCell) -> bool {
    exists|parent: ActorId, k: int|
        descends(tree, root, parent) && 0 <= k < tree.child_handles(parent).len()
            && #[trigger] tree.child_handles(parent)[k] == cell
}

impl SupervisionTree {
    /// The actors that a termination request to `root` reaches: `root` first,
    /// then its children, their children and so on, each of them once. An
    /// actor that is reached again over another chain, or over a cycle of
    /// links, is not listed again. Every handle after the first is a handle
    /// that the tree records as a child.
    pub fn descendants(&self, root: &ActorCell) -> (reached: Vec<ActorCell>)
        requires
            self.wf(),
        ensures
            reached@.len() > 0,
            reached@[0] == *root,
            ids_of(reached@).no_duplicates(),
            forall|id: ActorId| ids_of(reached@).contains(id) <==> descends(*self, root.id(), id),
            forall|i: int|
                1 <= i < reached@.len() ==> recorded_below(*self, root.id(), #[trigger] reached@[i]),
    {
        let mut reached: Vec<ActorCell> = Vec::new();
        reached.push(root.clone());
        let mut next: usize = 0;
        proof {
            lemma_descends_from_itself(*self, root.id());
            self.lemma_supervised();
            assert(ids_of(reached@)[0] == root.id());
        }
        while next < reached.len()
            invariant
                self.wf(),
                next <= reached.len(),
                reached@.len() > 0,
                reached@[0] == *root,
                ids_of(reached@).no_duplicates(),
                forall|i: int|
                    0 <= i < reached@.len() ==> descends(
                        *self,
                        root.id(),
                        #[trigger] ids_of(reached@)[i],
                    ),
                forall|i: int|
                    1 <= i < reached@.len() ==> self.supervised().contains(
                        #[trigger] ids_of(reached@)[i],
                    ),
                forall|i: int|
                    1 <= i < reached@.len() ==> recorded_below(
                        *self,
                        root.id(),
                        #[trigger] reached@[i],
                    ),
                forall|i: int, child: ActorId|
                    0 <= i < next && #[trigger] self.supervises(
                        #[trigger] ids_of(reached@)[i],
                        child,
                    ) ==> ids_of(reached@).contains(child),
            decreases self.supervised().len() + 1 - next,
        {
            proof {
                self.lemma_supervised();
                let universe = self.supervised().insert(root.id());
                assert(ids_of(reached@)[0] == root.id());
                lemma_distinct_bounded(ids_of(reached@), universe);
            }
            let current = reached[next].get_id();
            let kids = self.children(current);
            let ghost before = reached@;
            let mut k: usize = 0;
            proof {
                assert(ids_of(reached@)[next as int] == current);
            }
            while k < kids.len()
                invariant
                    self.wf(),
                    k <= kids.len(),
                    next < reached.len(),
                    kids@ == self.child_handles(current),
                    reached@.len() >= before.len(),
                    reached@.take(before.len() as int) == before,
                    ids_of(before)[next as int] == current,
                    next < before.len(),
                    descends(*self, root.id(), current),
                    reached@.len() > 0,
                    reached@[0] == *root,
                    ids_of(reached@).no_duplicates(),
                    forall|i: int|
                        0 <= i < reached@.len() ==> descends(
                            *self,
                            root.id(),
                            #[trigger] ids_of(reached@)[i],
                        ),
                    forall|i: int|
                        1 <= i < reached@.len() ==> self.supervised().contains(
                            #[trigger] ids_of(reached@)[i],
                        ),
                    forall|i: int|
                        1 <= i < reached@.len() ==> recorded_below(
                            *self,
                            root.id(),
                            #[trigger] reached@[i],
                        ),
                    forall|i: int, child: ActorId|
                        0 <= i < next && #[trigger] self.supervises(
                            #[trigger] ids_of(reached@)[i],
                            child,
                        ) ==> ids_of(reached@).contains(child),
                    forall|j: int|
                        0 <= j < k ==> ids_of(reached@).contains(#[trigger] ids_of(kids@)[j]),
                decreases kids.len() - k,
            {
                let kid = &kids[k];
                let kid_id = kid.get_id();
                proof {
                    assert(ids_of(kids@)[k as int] == kid_id);
                    assert(ids_of(kids@).contains(kid_id));
                    assert(self.supervises(current, kid_id));
                    lemma_descends_step(*self, root.id(), current, kid_id);
                    self.lemma_supervised();
                }
                if position_in(&reached, kid_id).is_none() {
                    let ghost earlier = reached@;
                    reached.push(kid.clone());
                    proof {
                        let now = ids_of(reached@);
                        let was = ids_of(earlier);
                        assert(now =~= was.push(kid_id));
                        assert(reached@.take(before.len() as int) =~= before);
                        assert(self.child_handles(current)[k as int] == reached@[earlier.len() as int]);
                        assert(recorded_below(*self, root.id(), reached@[earlier.len() as int]));
                        assert forall|i: int, j: int|
                            0 <= i < now.len() && 0 <= j < now.len() && i != j implies now[i]
                            != now[j] by {
                            if i < was.len() {
                                assert(was.contains(was[i]));
                            }
                            if j < was.len() {
                                assert(was.contains(was[j]));
                            }
                        }
                        assert forall|i: int, child: ActorId|
                            0 <= i < next && #[trigger] self.supervises(
                                #[trigger] now[i],
                                child,
                            ) implies now.contains(child) by {
                            assert(self.supervises(was[i], child));
                            let at = choose|at: int| 0 <= at < was.len() && was[at] == child;
                            assert(now[at] == child);
                        }
                        assert forall|j: int| 0 <= j < k + 1 implies now.contains(
                            #[trigger] ids_of(kids@)[j],
                        ) by {
                            if j < k {
                                let at = choose|at: int|
                                    0 <= at < was.len() && was[at] == ids_of(kids@)[j];
                                assert(now[at] == ids_of(kids@)[j]);
                            } else {
                                assert(now[was.len() as int] == kid_id);
                            }
                        }
                    }
                }
                k += 1;
            }
            proof {
                let now = ids_of(reached@);
                assert(now[next as int] == current) by {
                    assert(reached@[next as int] == reached@.take(before.len() as int)[next as int]);
                }
                assert forall|i: int, child: ActorId|
                    0 <= i < next + 1 && #[trigger] self.supervises(
                        #[trigger] now[i],
                        child,
                    ) implies now.contains(child) by {
                    if i == next {
                        let kid_ids = ids_of(kids@);
                        let j = choose|j: int| 0 <= j < kid_ids.len() && kid_ids[j] == child;
                        assert(now.contains(kid_ids[j]));
                    }
                }
            }
            next += 1;
        }
        proof {
            let now = ids_of(reached@);
            let closed = now.to_set();
            assert(now[0] == root.id());
            assert forall|parent: ActorId, child: ActorId|
                closed.contains(parent) && #[trigger] self.supervises(
                    parent,
                    child,
                ) implies closed.contains(child) by {
                let i = choose|i: int| 0 <= i < now.len() && now[i] == parent;
                assert(self.supervises(now[i], child));
            }
            assert forall|id: ActorId| now.contains(id) <==> descends(*self, root.id(), id) by {
                if now.contains(id) {
                    let i = choose|i: int| 0 <= i < now.len() && now[i] == id;
                    assert(descends(*self, root.id(), now[i]));
                }
                if descends(*self, root.id(), id) {
                    let path = choose|path: Seq<ActorId>|
                        path.len() > 0 && path[0] == root.id() && path.last() == id
                            && #[trigger] is_chain(*self, path);
                    lemma_closed_holds_chain(*self, closed, path, path.len() - 1);
                }
            }
        }
        reached
    }
}

/// Whether the tree records every actor under one handle: two entries among
/// the children, of whichever parents, that have the same identifier are the
/// same handle.
pub open spec fn one_handle_each(tree: SupervisionTree) -> bool {
    forall|first: ActorId, i: int, second: ActorId, j: int|
        #![trigger tree.child_handles(first)[i], tree.child_handles(second)[j]]
        0 <= i < tree.child_handles(first).len() && 0 <= j < tree.child_handles(second).len()
            && tree.child_handles(first)[i].id() == tree.child_handles(second)[j].id()
            ==> tree.child_handles(first)[i] == tree.child_handles(second)[j]
}

/// Cascading termination: where the tree records every actor under one handle,
/// every handle that is recorded as a child of the terminated actor, or of an
/// actor below it, was asked to terminate. A handle with the identifier of the
/// terminated actor itself is left aside: the terminated actor was asked
/// through its own handle.
pub proof fn lemma_recorded_handles_are_asked(
    root: ActorCell,
    tree: SupervisionTree,
    reached: Seq<ActorCell>,
    parent: ActorId,
    k: int,
)
    requires
        root.terminates_through(tree, reached),
        one_handle_each(tree),
        descends(tree, root.id(), parent),
        0 <= k < tree.child_handles(parent).len(),
        tree.child_handles(parent)[k].id() != root.id(),
    ensures
        reached.contains(tree.child_handles(parent)[k]),
        tree.child_handles(parent)[k].was_asked_to_terminate(),
{
    let cell = tree.child_handles(parent)[k];
    assert(ids_of(tree.child_handles(parent))[k] == cell.id());
    assert(tree.supervises(parent, cell.id()));
    lemma_descends_step(tree, root.id(), parent, cell.id());
    let ids = ids_of(reached);
    assert(ids.contains(cell.id()));
    let at = choose|at: int| 0 <= at < ids.len() && ids[at] == cell.id();
    assert(reached[at].id() == cell.id());
    assert(at != 0);
    assert(recorded_below(tree, root.id(), reached[at]));
    let (other, j) = choose|other: ActorId, j: int|
        descends(tree, root.id(), other) && 0 <= j < tree.child_handles(other).len()
            && #[trigger] tree.child_handles(other)[j] == reached[at];
    assert(tree.child_handles(other)[j] == tree.child_handles(parent)[k]);
    assert(reached[at] == cell);
}

impl ActorCell {
    /// Terminates this actor and everything below it in the tree. Every actor
    /// that descends from this one is visited once, this actor first; each
    /// visited actor that is not yet stopping or stopped is sent `Exit`, and a
    /// failed send is ignored. Nothing is waited for. The identifiers of the
    /// visited actors are returned in visiting order. The handles that are
    /// asked to terminate are this one and handles that the tree records as
    /// children below it.
    pub fn terminate(&self, tree: &SupervisionTree) -> (visited: Vec<ActorId>)
        requires
            tree.wf(),
        ensures
            visited@.len() > 0,
            visited@[0] == self.id(),
            visited@.no_duplicates(),
            forall|id: ActorId| visited@.contains(id) <==> descends(*tree, self.id(), id),
            self.was_asked_to_terminate(),
            exists|reached: Seq<ActorCell>|
                ids_of(reached) == visited@ && #[trigger] self.terminates_through(*tree, reached),
            self.was_terminated(*tree),
    {
        let reached = tree.descendants(self);
        let mut visited: Vec<ActorId> = Vec::new();
        let mut at: usize = 0;
        while at < reached.len()
            invariant
                at <= reached.len(),
                visited@ == ids_of(reached@).take(at as int),
                forall|i: int| 0 <= i < at ==> (#[trigger] reached@[i]).was_asked_to_terminate(),
            decreases reached.len() - at,
        {
            let cell = &reached[at];
            let status = cell.get_status();
            if status.needs_exit_signal() {
                cell.stop(None);
            }
            proof {
                assert(cell.may_read_status(status));
                assert(cell.was_asked_to_terminate());
            }
            visited.push(cell.get_id());
            proof {
                assert(ids_of(reached@).take(at as int).push(ids_of(reached@)[at as int])
                    =~= ids_of(reached@).take(at + 1));
            }
            at += 1;
        }
        proof {
            assert(ids_of(reached@).take(at as int) =~= ids_of(reached@));
            assert(ids_of(reached@)[0] == self.id());
            assert(reached@[0].was_asked_to_terminate());
            assert(ids_of(reached@) == visited@);
            assert(self.terminates_through(*tree, reached@));
        }
        visited
    }

    /// Whether `reached` are the handles that a termination of this actor went
    /// through: this handle first, then handles that the tree records as
    /// children below it, one for each actor that descends from this one, and
    /// each of them asked to terminate.
    pub open spec fn terminates_through(self, tree: SupervisionTree, reached: Seq<ActorCell>) -> bool {
        &&& reached.len() > 0
        &&& reached[0] == self
        &&& ids_of(reached).no_duplicates()
        &&& forall|id: ActorId| ids_of(reached).contains(id) <==> descends(tree, self.id(), id)
        &&& forall|i: int|
            1 <= i < reached.len() ==> recorded_below(tree, self.id(), #[trigger] reached[i])
        &&& forall|i: int|
            0 <= i < reached.len() ==> (#[trigger] reached[i]).was_asked_to_terminate()
    }

    /// Whether this actor and everything below it in the tree was terminated,
    /// as [`ActorCell::terminate`] does it.
    pub open spec fn was_terminated(self, tree: SupervisionTree) -> bool {
        exists|reached: Seq<ActorCell>| #[trigger] self.terminates_through(tree, reached)
    }

    /// Whether the actor was asked to terminate: its stage was read, and where
    /// the stage read was at most `Upgrading`, `Exit` without a reason was
    /// offered to its signal port.
    pub open spec fn was_asked_to_terminate(self) -> bool {
        exists|status: ActorStatus| #[trigger]
            self.may_read_status(status) && (status.signals_on_terminate() ==> self.was_offered(
                Signal::Exit(None),
            ))
    }

    /// Whether `result` is the report of what the actor's supervision port
    /// answered when it was handed `event`.
    pub open spec fn reports_event(
        self,
        event: SupervisionEvent,
        result: Result<(), MessagingErr>,
    ) -> bool {
        exists|outcome: Result<(), SendFailure>| #[trigger]
            self.supervision_port_answers(event, outcome) && result
                == delivery_result(outcome)
    }

    /// Sends `evt` to every supervisor of this actor, a copy to each. See
    /// [`SupervisionTree::notify_supervisors`].
    pub fn notify_supervisors(&self, evt: SupervisionEvent, tree: &SupervisionTree) -> (outcomes:
        Vec<Result<(), MessagingErr>>)
        requires
            tree.wf(),
        ensures
            outcomes@.len() == tree.parent_handles(self.id()).len(),
            forall|i: int|
                0 <= i < outcomes@.len() ==> tree.parent_handles(self.id())[i].reports_event(
                    evt,
                    #[trigger] outcomes@[i],
                ),
            forall|i: int|
                0 <= i < outcomes@.len() && (#[trigger] outcomes@[i]) is Err ==> outcomes@[i]
                    == Err::<(), MessagingErr>(MessagingErr::ChannelClosed),
    {
        tree.notify_supervisors(self.get_id(), &evt)
    }
}

impl SupervisionTree {
    /// Terminates every child of `actor`, and with it everything below that
    /// child, as [`ActorCell::terminate`] does, in the order of the record. The
    /// identifiers of the children are returned.
    pub fn terminate_children(&self, actor: ActorId) -> (children: Vec<ActorId>)
        requires
            self.wf(),
        ensures
            children@ == ids_of(self.child_handles(actor)),
            forall|i: int|
                0 <= i < self.child_handles(actor).len() ==> (#[trigger] self.child_handles(
                    actor,
                )[i]).was_terminated(*self),
    {
        let kids = self.children(actor);
        let mut children: Vec<ActorId> = Vec::new();
        let mut at: usize = 0;
        while at < kids.len()
            invariant
                self.wf(),
                at <= kids.len(),
                children@ == ids_of(kids@).take(at as int),
                forall|i: int| 0 <= i < at ==> (#[trigger] kids@[i]).was_terminated(*self),
            decreases kids.len() - at,
        {
            let _ = kids[at].terminate(self);
            children.push(kids[at].get_id());
            proof {
                assert(ids_of(kids@).take(at as int).push(ids_of(kids@)[at as int]) =~= ids_of(
                    kids@,
                ).take(at + 1));
            }
            at += 1;
        }
        proof {
            assert(ids_of(kids@).take(at as int) =~= ids_of(kids@));
        }
        children
    }

    /// Sends a copy of `evt` to every supervisor of `actor`, in the order of the
    /// record. A supervisor whose port is closed does not keep the event from
    /// the others: there is one outcome for each supervisor, in the same order.
    pub fn notify_supervisors(&self, actor: ActorId, evt: &SupervisionEvent) -> (outcomes: Vec<
        Result<(), MessagingErr>,
    >)
        requires
            self.wf(),
        ensures
            outcomes@.len() == self.parent_handles(actor).len(),
            forall|i: int|
                0 <= i < outcomes@.len() ==> self.parent_handles(actor)[i].reports_event(
                    *evt,
                    #[trigger] outcomes@[i],
                ),
            forall|i: int|
                0 <= i < outcomes@.len() && (#[trigger] outcomes@[i]) is Err ==> outcomes@[i]
                    == Err::<(), MessagingErr>(MessagingErr::ChannelClosed),
    {
        let supervisors = self.parents(actor);
        let mut outcomes: Vec<Result<(), MessagingErr>> = Vec::new();
        let mut at: usize = 0;
        while at < supervisors.len()
            invariant
                at <= supervisors.len(),
                outcomes@.len() == at,
                forall|i: int|
                    0 <= i < outcomes@.len() ==> supervisors@[i].reports_event(
                        *evt,
                        #[trigger] outcomes@[i],
                    ),
                forall|i: int|
                    0 <= i < outcomes@.len() && (#[trigger] outcomes@[i]) is Err ==> outcomes@[i]
                        == Err::<(), MessagingErr>(MessagingErr::ChannelClosed),
            decreases supervisors.len() - at,
        {
            let outcome = supervisors[at].send_supervisor_evt(evt.duplicate());
            assert(supervisors@[at as int].reports_event(*evt, outcome));
            outcomes.push(outcome);
            at += 1;
        }
        outcomes
    }
}

} // verus!

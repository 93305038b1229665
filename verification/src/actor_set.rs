//! A set of actor handles, keyed by actor identifier.

use crate::actor_cell::ActorCell;
use crate::messages::ActorId;
use vstd::prelude::*;

verus! {

/// The identifiers of a sequence of handles, in the same order.
pub open spec fn ids_of(handles: Seq<ActorCell>) -> Seq<ActorId> {
    handles.map_values(|cell: ActorCell| cell.id())
}

/// Whether one of `handles` has the identifier `id`.
pub open spec fn holds(handles: Seq<ActorCell>, id: ActorId) -> bool {
    exists|i: int| 0 <= i < handles.len() && #[trigger] handles[i].id() == id
}

/// A position at which `handles` has the identifier `id`, where it has it.
pub open spec fn position_of(handles: Seq<ActorCell>, id: ActorId) -> int {
    choose|i: int| 0 <= i < handles.len() && #[trigger] handles[i].id() == id
}

/// `handles` with `cell` in it: in the place of the handle with the same
/// identifier, where there is one, and at the end otherwise.
pub open spec fn with_handle(handles: Seq<ActorCell>, cell: ActorCell) -> Seq<ActorCell> {
    if holds(handles, cell.id()) {
        handles.update(position_of(handles, cell.id()), cell)
    } else {
        handles.push(cell)
    }
}

/// `handles` without the handle that has the identifier `id`; the others keep
/// their order.
pub open spec fn without_id(handles: Seq<ActorCell>, id: ActorId) -> Seq<ActorCell> {
    if holds(handles, id) {
        handles.remove(position_of(handles, id))
    } else {
        handles
    }
}

/// Where no identifier occurs twice, an identifier has one position only.
pub proof fn lemma_position_unique(handles: Seq<ActorCell>, at: int)
    requires
        ids_of(handles).no_duplicates(),
        0 <= at < handles.len(),
    ensures
        holds(handles, handles[at].id()),
        position_of(handles, handles[at].id()) == at,
{
    let id = handles[at].id();
    let found = position_of(handles, id);
    assert(ids_of(handles)[at] == id);
    assert(ids_of(handles)[found] == id);
}

/// An identifier is held exactly if it is among the identifiers.
pub proof fn lemma_holds_is_contains(handles: Seq<ActorCell>, id: ActorId)
    ensures
        holds(handles, id) == ids_of(handles).to_set().contains(id),
{
    let ids = ids_of(handles);
    if holds(handles, id) {
        let i = position_of(handles, id);
        assert(ids[i] == id);
    }
    if ids.contains(id) {
        let i = choose|i: int| 0 <= i < ids.len() && ids[i] == id;
        assert(handles[i].id() == id);
    }
}

/// The first position at which `cells` has a handle with the identifier `id`,
/// if there is one.
pub fn position_in(cells: &Vec<ActorCell>, id: ActorId) -> (found: Option<usize>)
    ensures
        match found {
            Some(index) => index < cells@.len() && cells@[index as int].id() == id,
            None => !ids_of(cells@).contains(id),
        },
        found is Some <==> ids_of(cells@).contains(id),
{
    let mut index: usize = 0;
    while index < cells.len()
        invariant
            index <= cells.len(),
            forall|k: int| 0 <= k < index ==> cells@[k].id() != id,
        decreases cells.len() - index,
    {
        if cells[index].get_id() == id {
            proof {
                assert(ids_of(cells@)[index as int] == id);
            }
            return Some(index);
        }
        index += 1;
    }
    proof {
        let ids = ids_of(cells@);
        if ids.contains(id) {
            let k = choose|k: int| 0 <= k < ids.len() && ids[k] == id;
            assert(cells@[k].id() == id);
        }
    }
    None
}

/// A set of actor handles in which no identifier occurs twice. Inserting a
/// handle whose identifier is present replaces the held handle; removing an
/// absent identifier changes nothing.
pub struct ActorSet {
    cells: Vec<ActorCell>,
}

impl ActorSet {
    /// The held handles, in the order in which they are handed out.
    pub closed spec fn handles(self) -> Seq<ActorCell> {
        self.cells@
    }

    /// No identifier occurs twice.
    pub open spec fn wf(self) -> bool {
        ids_of(self.handles()).no_duplicates()
    }

    /// The identifiers of the held handles.
    pub open spec fn ids(self) -> Set<ActorId> {
        ids_of(self.handles()).to_set()
    }

    /// The empty set.
    pub fn new() -> (set: ActorSet)
        ensures
            set.wf(),
            set.handles() == Seq::<ActorCell>::empty(),
            set.ids() == Set::<ActorId>::empty(),
    {
        let set = ActorSet { cells: Vec::new() };
        assert(ids_of(set.handles()) =~= Seq::<ActorId>::empty());
        assert(set.ids() =~= Set::<ActorId>::empty());
        set
    }

    /// The number of held handles.
    pub fn len(&self) -> (n: usize)
        ensures
            n == self.handles().len(),
            self.wf() ==> n == self.ids().len(),
    {
        proof {
            if self.wf() {
                ids_of(self.handles()).unique_seq_to_set();
            }
        }
        self.cells.len()
    }

    /// The handle at a position below [`ActorSet::len`].
    pub fn get(&self, index: usize) -> (cell: &ActorCell)
        requires
            index < self.handles().len(),
        ensures
            *cell == self.handles()[index as int],
            self.ids().contains(cell.id()),
    {
        proof {
            assert(ids_of(self.handles())[index as int] == self.handles()[index as int].id());
        }
        &self.cells[index]
    }

    /// The position of the handle with the given identifier, if it is held.
    pub fn position(&self, id: ActorId) -> (found: Option<usize>)
        ensures
            match found {
                Some(index) => index < self.handles().len() && self.handles()[index as int].id()
                    == id,
                None => !self.ids().contains(id),
            },
            found is Some <==> self.ids().contains(id),
    {
        position_in(&self.cells, id)
    }

    /// Copies of the held handles, in their order.
    pub fn to_vec(&self) -> (cells: Vec<ActorCell>)
        ensures
            cells@ == self.handles(),
    {
        let mut cells: Vec<ActorCell> = Vec::new();
        let mut next: usize = 0;
        while next < self.cells.len()
            invariant
                next <= self.cells.len(),
                cells@ == self.cells@.take(next as int),
            decreases self.cells.len() - next,
        {
            cells.push(self.cells[next].clone());
            proof {
                assert(self.cells@.take(next as int).push(self.cells@[next as int])
                    =~= self.cells@.take(next + 1));
            }
            next += 1;
        }
        proof {
            assert(self.cells@.take(next as int) =~= self.cells@);
        }
        cells
    }

    /// Whether a handle with the given identifier is held.
    pub fn contains(&self, id: ActorId) -> (held: bool)
        ensures
            held == self.ids().contains(id),
    {
        self.position(id).is_some()
    }

    /// Adds a handle. Where a handle with the same identifier is held already,
    /// the new one takes its place.
    pub fn insert(&mut self, cell: ActorCell)
        requires
            old(self).wf(),
        ensures
            final(self).wf(),
            final(self).ids() == old(self).ids().insert(cell.id()),
            final(self).handles() == with_handle(old(self).handles(), cell),
    {
        let id = cell.get_id();
        let ghost before = ids_of(self.handles());
        proof {
            lemma_holds_is_contains(self.handles(), id);
        }
        match self.position(id) {
            Some(index) => {
                proof {
                    lemma_position_unique(self.handles(), index as int);
                }
                self.cells[index] = cell;
                proof {
                    let after = ids_of(self.handles());
                    assert(after =~= before);
                    assert(before[index as int] == id);
                    assert(before.to_set() =~= before.to_set().insert(id));
                }
            },
            None => {
                self.cells.push(cell);
                proof {
                    let after = ids_of(self.handles());
                    assert(after =~= before.push(id));
                    assert forall|i: int, j: int|
                        0 <= i < after.len() && 0 <= j < after.len() && i != j implies after[i]
                        != after[j] by {
                        if i < before.len() {
                            assert(before.contains(before[i]));
                        }
                        if j < before.len() {
                            assert(before.contains(before[j]));
                        }
                    }
                    assert forall|x: ActorId| after.to_set().contains(x) <==> before.to_set().insert(
                        id,
                    ).contains(x) by {
                        if after.contains(x) {
                            let k = choose|k: int| 0 <= k < after.len() && after[k] == x;
                            if k < before.len() {
                                assert(before[k] == x);
                            }
                        }
                        if before.contains(x) {
                            let k = choose|k: int| 0 <= k < before.len() && before[k] == x;
                            assert(after[k] == x);
                        }
                        if x == id {
                            assert(after[before.len() as int] == id);
                        }
                    }
                    assert(after.to_set() =~= before.to_set().insert(id));
                }
            },
        }
    }

    /// Removes the handle with the given identifier, if it is held, and tells
    /// whether it was.
    pub fn remove(&mut self, id: ActorId) -> (was_held: bool)
        requires
            old(self).wf(),
        ensures
            final(self).wf(),
            final(self).ids() == old(self).ids().remove(id),
            final(self).handles() == without_id(old(self).handles(), id),
            was_held == old(self).ids().contains(id),
    {
        let ghost before = ids_of(self.handles());
        proof {
            lemma_holds_is_contains(self.handles(), id);
        }
        match self.position(id) {
            Some(index) => {
                proof {
                    lemma_position_unique(self.handles(), index as int);
                }
                let _ = self.cells.remove(index);
                proof {
                    let after = ids_of(self.handles());
                    let at = index as int;
                    assert(after =~= before.remove(at));
                    assert forall|i: int, j: int|
                        0 <= i < after.len() && 0 <= j < after.len() && i != j implies after[i]
                        != after[j] by {
                        let bi = if i < at {
                            i
                        } else {
                            i + 1
                        };
                        let bj = if j < at {
                            j
                        } else {
                            j + 1
                        };
                        assert(after[i] == before[bi]);
                        assert(after[j] == before[bj]);
                    }
                    assert forall|x: ActorId| after.to_set().contains(x) <==> before.to_set().remove(
                        id,
                    ).contains(x) by {
                        if after.contains(x) {
                            let k = choose|k: int| 0 <= k < after.len() && after[k] == x;
                            let bk = if k < at {
                                k
                            } else {
                                k + 1
                            };
                            assert(before[bk] == x);
                            assert(before[at] == id);
                            assert(before[bk] != before[at]);
                        }
                        if before.contains(x) && x != id {
                            let k = choose|k: int| 0 <= k < before.len() && before[k] == x;
                            let ak = if k < at {
                                k
                            } else {
                                k - 1
                            };
                            assert(after[ak] == x);
                        }
                    }
                    assert(after.to_set() =~= before.to_set().remove(id));
                }
                true
            },
            None => {
                proof {
                    assert(before.to_set() =~= before.to_set().remove(id));
                }
                false
            },
        }
    }
}

/// Putting a handle in keeps the identifiers distinct and adds its identifier
/// to them.
pub proof fn lemma_with_handle(handles: Seq<ActorCell>, cell: ActorCell)
    requires
        ids_of(handles).no_duplicates(),
    ensures
        ids_of(with_handle(handles, cell)).no_duplicates(),
        holds(with_handle(handles, cell), cell.id()),
        forall|id: ActorId|
            id != cell.id() ==> holds(with_handle(handles, cell), id) == holds(handles, id),
{
    let after = with_handle(handles, cell);
    let before_ids = ids_of(handles);
    let after_ids = ids_of(after);
    if holds(handles, cell.id()) {
        let at = position_of(handles, cell.id());
        assert(after_ids =~= before_ids);
        assert(after[at].id() == cell.id());
        assert forall|id: ActorId| id != cell.id() implies holds(after, id) == holds(
            handles,
            id,
        ) by {
            if holds(after, id) {
                let i = position_of(after, id);
                assert(handles[i].id() == id);
            }
            if holds(handles, id) {
                let i = position_of(handles, id);
                assert(after[i].id() == id);
            }
        }
    } else {
        assert(after_ids =~= before_ids.push(cell.id()));
        assert(after[handles.len() as int].id() == cell.id());
        assert forall|i: int, j: int|
            0 <= i < after_ids.len() && 0 <= j < after_ids.len() && i != j implies after_ids[i]
            != after_ids[j] by {
            if i < handles.len() {
                assert(handles[i].id() == before_ids[i]);
            }
            if j < handles.len() {
                assert(handles[j].id() == before_ids[j]);
            }
        }
        assert forall|id: ActorId| id != cell.id() implies holds(after, id) == holds(
            handles,
            id,
        ) by {
            if holds(after, id) {
                let i = position_of(after, id);
                assert(handles[i].id() == id);
            }
            if holds(handles, id) {
                let i = position_of(handles, id);
                assert(after[i].id() == id);
            }
        }
    }
}

/// Taking an identifier out keeps the identifiers distinct and leaves no
/// handle with that identifier behind; every other handle stays.
pub proof fn lemma_without_id(handles: Seq<ActorCell>, id: ActorId)
    requires
        ids_of(handles).no_duplicates(),
    ensures
        ids_of(without_id(handles, id)).no_duplicates(),
        !holds(without_id(handles, id), id),
        forall|other: ActorId|
            other != id ==> holds(without_id(handles, id), other) == holds(handles, other),
{
    let after = without_id(handles, id);
    let before_ids = ids_of(handles);
    let after_ids = ids_of(after);
    if holds(handles, id) {
        let at = position_of(handles, id);
        assert(after_ids =~= before_ids.remove(at));
        assert forall|i: int, j: int|
            0 <= i < after_ids.len() && 0 <= j < after_ids.len() && i != j implies after_ids[i]
            != after_ids[j] by {
            let bi = if i < at {
                i
            } else {
                i + 1
            };
            let bj = if j < at {
                j
            } else {
                j + 1
            };
            assert(after_ids[i] == before_ids[bi]);
            assert(after_ids[j] == before_ids[bj]);
        }
        assert forall|other: ActorId| holds(after, other) == (other != id && holds(
            handles,
            other,
        )) by {
            if holds(after, other) {
                let i = position_of(after, other);
                let bi = if i < at {
                    i
                } else {
                    i + 1
                };
                assert(handles[bi].id() == other);
                assert(before_ids[bi] == other);
                assert(before_ids[at] == id);
            }
            if other != id && holds(handles, other) {
                let i = position_of(handles, other);
                let ai = if i < at {
                    i
                } else {
                    i - 1
                };
                assert(after[ai].id() == other);
            }
        }
    }
}

/// Set semantics: putting a handle in twice is the same as putting it in
/// once, and taking an identifier out twice is the same as taking it out
/// once.
pub proof fn lemma_insert_and_remove_are_idempotent(handles: Seq<ActorCell>, cell: ActorCell)
    requires
        ids_of(handles).no_duplicates(),
    ensures
        with_handle(with_handle(handles, cell), cell) == with_handle(handles, cell),
        without_id(without_id(handles, cell.id()), cell.id()) == without_id(handles, cell.id()),
        !holds(handles, cell.id()) ==> without_id(handles, cell.id()) == handles,
{
    let once = with_handle(handles, cell);
    lemma_with_handle(handles, cell);
    let at = if holds(handles, cell.id()) {
        position_of(handles, cell.id())
    } else {
        handles.len() as int
    };
    assert(once[at] == cell);
    lemma_position_unique(once, at);
    assert(once.update(at, cell) =~= once);
    lemma_without_id(handles, cell.id());
}

/// Set semantics: a handle that was put in and taken out again is gone, and
/// where it was not held before, the handles are as they were.
pub proof fn lemma_insert_then_remove(handles: Seq<ActorCell>, cell: ActorCell)
    requires
        ids_of(handles).no_duplicates(),
    ensures
        !holds(without_id(with_handle(handles, cell), cell.id()), cell.id()),
        !holds(handles, cell.id()) ==> without_id(with_handle(handles, cell), cell.id())
            == handles,
{
    let once = with_handle(handles, cell);
    lemma_with_handle(handles, cell);
    lemma_without_id(once, cell.id());
    if !holds(handles, cell.id()) {
        let at = handles.len() as int;
        assert(once[at] == cell);
        lemma_position_unique(once, at);
        assert(once.remove(at) =~= handles);
    }
}

} // verus!

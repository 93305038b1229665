use ractor::actor_cell::ActorCell;
use ractor::actor_cell::ActorIdAllocator;
use ractor::actor_cell::ActorPortSet;
use ractor::actor_set::ActorSet;
use ractor::messages::MessagingErr;
use ractor::messages::Signal;
use ractor::messages::SupervisionEvent;
use ractor::status::ActorStatus;
use ractor::supervision::SupervisionTree;
use tokio::sync::mpsc::error::TryRecvError;

fn spawn(ids: &mut ActorIdAllocator) -> (ActorCell, ActorPortSet) {
    ActorCell::new(None, 1, ids)
}

fn exits_waiting(ports: &mut ActorPortSet) -> usize {
    let mut count = 0;
    loop {
        match ports.signal_rx.try_recv() {
            Ok(Signal::Exit(_)) => count += 1,
            Ok(Signal::Kill) => panic!("no kill is sent by a cascade"),
            Err(_) => return count,
        }
    }
}

fn ids_of(cells: &Vec<ActorCell>) -> Vec<u64> {
    cells.iter().map(|cell| cell.get_id()).collect()
}

#[test]
fn actor_set_inserts_once_and_removes_quietly() {
    let mut ids = ActorIdAllocator::new();
    let (a, _pa) = spawn(&mut ids);
    let (b, _pb) = spawn(&mut ids);
    let mut set = ActorSet::new();
    assert_eq!(set.len(), 0);
    assert!(!set.contains(a.get_id()));
    set.insert(a.clone());
    set.insert(b.clone());
    set.insert(a.clone());
    assert_eq!(set.len(), 2);
    assert!(set.contains(0));
    assert!(set.contains(1));
    assert_eq!(set.position(1), Some(1));
    assert_eq!(set.get(0).get_id(), 0);
    assert!(!set.remove(5));
    assert_eq!(set.len(), 2);
    assert!(set.remove(0));
    assert!(!set.contains(0));
    assert!(set.contains(1));
    assert_eq!(set.position(0), None);
    assert!(!set.remove(0));
    assert_eq!(set.len(), 1);
}

#[test]
fn link_records_both_sides() {
    let mut ids = ActorIdAllocator::new();
    let (parent, _pp) = spawn(&mut ids);
    let (child, _pc) = spawn(&mut ids);
    let mut tree = SupervisionTree::new();
    assert!(!tree.is_child_of(child.get_id(), parent.get_id()));
    assert!(!tree.is_supervisor_of(parent.get_id(), child.get_id()));
    child.link(parent.clone(), &mut tree);
    assert!(tree.is_child_of(child.get_id(), parent.get_id()));
    assert!(tree.is_supervisor_of(parent.get_id(), child.get_id()));
    assert!(!tree.is_child_of(parent.get_id(), child.get_id()));
    assert!(!tree.is_supervisor_of(child.get_id(), parent.get_id()));
    assert_eq!(ids_of(&tree.children(parent.get_id())), vec![child.get_id()]);
    assert_eq!(ids_of(&tree.parents(child.get_id())), vec![parent.get_id()]);
    assert!(tree.children(child.get_id()).is_empty());
    assert!(tree.parents(parent.get_id()).is_empty());
}

#[test]
fn unlink_removes_both_sides() {
    let mut ids = ActorIdAllocator::new();
    let (parent, _pp) = spawn(&mut ids);
    let (child, _pc) = spawn(&mut ids);
    let mut tree = SupervisionTree::new();
    child.link(parent.clone(), &mut tree);
    child.unlink(parent.clone(), &mut tree);
    assert!(!tree.is_child_of(child.get_id(), parent.get_id()));
    assert!(!tree.is_supervisor_of(parent.get_id(), child.get_id()));
    assert!(tree.children(parent.get_id()).is_empty());
    assert!(tree.parents(child.get_id()).is_empty());
}

#[test]
fn linking_twice_is_linking_once() {
    let mut ids = ActorIdAllocator::new();
    let (parent, _pp) = spawn(&mut ids);
    let (child, _pc) = spawn(&mut ids);
    let mut tree = SupervisionTree::new();
    child.link(parent.clone(), &mut tree);
    child.link(parent.clone(), &mut tree);
    assert_eq!(tree.children(parent.get_id()).len(), 1);
    assert_eq!(tree.parents(child.get_id()).len(), 1);
    child.unlink(parent.clone(), &mut tree);
    assert!(!tree.is_child_of(child.get_id(), parent.get_id()));
    assert!(!tree.is_supervisor_of(parent.get_id(), child.get_id()));
}

#[test]
fn unlinking_what_is_not_linked_changes_nothing() {
    let mut ids = ActorIdAllocator::new();
    let (parent, _pp) = spawn(&mut ids);
    let (child, _pc) = spawn(&mut ids);
    let (other, _po) = spawn(&mut ids);
    let mut tree = SupervisionTree::new();
    other.link(parent.clone(), &mut tree);
    child.unlink(parent.clone(), &mut tree);
    child.unlink(parent.clone(), &mut tree);
    assert!(tree.is_child_of(other.get_id(), parent.get_id()));
    assert!(tree.is_supervisor_of(parent.get_id(), other.get_id()));
    assert!(!tree.is_child_of(child.get_id(), parent.get_id()));
}

#[test]
fn matched_links_and_unlinks_leave_no_link() {
    let mut ids = ActorIdAllocator::new();
    let (parent, _pp) = spawn(&mut ids);
    let (child, _pc) = spawn(&mut ids);
    let (sibling, _ps) = spawn(&mut ids);
    let mut tree = SupervisionTree::new();
    sibling.link(parent.clone(), &mut tree);
    for round in 0..5 {
        for _ in 0..=round {
            child.link(parent.clone(), &mut tree);
        }
        assert!(tree.is_child_of(child.get_id(), parent.get_id()));
        assert!(tree.is_supervisor_of(parent.get_id(), child.get_id()));
        for _ in 0..=round {
            child.unlink(parent.clone(), &mut tree);
        }
        assert!(!tree.is_child_of(child.get_id(), parent.get_id()));
        assert!(!tree.is_supervisor_of(parent.get_id(), child.get_id()));
        assert!(tree.is_child_of(sibling.get_id(), parent.get_id()));
        assert!(tree.is_supervisor_of(parent.get_id(), sibling.get_id()));
    }
}

#[test]
fn one_sided_inserts_touch_one_record() {
    let mut ids = ActorIdAllocator::new();
    let (a, _pa) = spawn(&mut ids);
    let (b, _pb) = spawn(&mut ids);
    let mut tree = SupervisionTree::new();
    tree.insert_parent(a.get_id(), b.clone());
    assert!(tree.is_child_of(a.get_id(), b.get_id()));
    assert!(!tree.is_supervisor_of(b.get_id(), a.get_id()));
    tree.insert_child(b.get_id(), a.clone());
    tree.insert_child(b.get_id(), a.clone());
    assert!(tree.is_supervisor_of(b.get_id(), a.get_id()));
    assert_eq!(tree.children(b.get_id()).len(), 1);
    tree.remove_parent(a.get_id(), b.get_id());
    assert!(!tree.is_child_of(a.get_id(), b.get_id()));
    assert!(tree.is_supervisor_of(b.get_id(), a.get_id()));
    tree.remove_child(b.get_id(), a.get_id());
    tree.remove_child(b.get_id(), a.get_id());
    assert!(!tree.is_supervisor_of(b.get_id(), a.get_id()));
}

#[test]
fn an_actor_may_have_several_supervisors() {
    let mut ids = ActorIdAllocator::new();
    let (first, _first_ports) = spawn(&mut ids);
    let (second, _second_ports) = spawn(&mut ids);
    let (child, _pc) = spawn(&mut ids);
    let mut tree = SupervisionTree::new();
    child.link(first.clone(), &mut tree);
    child.link(second.clone(), &mut tree);
    assert_eq!(ids_of(&tree.parents(child.get_id())), vec![first.get_id(), second.get_id()]);
    child.unlink(first.clone(), &mut tree);
    assert_eq!(ids_of(&tree.parents(child.get_id())), vec![second.get_id()]);
    assert!(tree.is_supervisor_of(second.get_id(), child.get_id()));
    assert!(!tree.is_supervisor_of(first.get_id(), child.get_id()));
}

#[test]
fn terminate_signals_the_actor_and_its_child() {
    let mut ids = ActorIdAllocator::new();
    let (a, mut pa) = spawn(&mut ids);
    assert_eq!(a.get_status(), ActorStatus::Unstarted);
    a.set_status(ActorStatus::Running);
    let (b, mut pb) = spawn(&mut ids);
    b.set_status(ActorStatus::Running);
    let (supervisor, mut ps) = spawn(&mut ids);
    let mut tree = SupervisionTree::new();
    b.link(a.clone(), &mut tree);
    a.link(supervisor.clone(), &mut tree);

    let visited = a.terminate(&tree);
    assert_eq!(visited, vec![a.get_id(), b.get_id()]);
    assert_eq!(exits_waiting(&mut pa), 1);
    assert_eq!(exits_waiting(&mut pb), 1);
    assert_eq!(exits_waiting(&mut ps), 0);

    a.set_status(ActorStatus::Stopped);
    let outcomes = a.notify_supervisors(
        SupervisionEvent::ActorTerminated(a.get_id(), None),
        &tree,
    );
    assert_eq!(outcomes, vec![Ok(())]);
    match ps.supervisor_rx.try_recv().unwrap() {
        SupervisionEvent::ActorTerminated(id, reason) => {
            assert_eq!(id, a.get_id());
            assert_eq!(reason, None);
        }
        _ => panic!("expected ActorTerminated"),
    }
    assert_eq!(ps.supervisor_rx.try_recv().err(), Some(TryRecvError::Empty));
    assert_eq!(pb.supervisor_rx.try_recv().err(), Some(TryRecvError::Empty));
}

#[test]
fn terminate_reaches_every_descendant() {
    let mut ids = ActorIdAllocator::new();
    let (root, mut p_root) = spawn(&mut ids);
    let (left, mut p_left) = spawn(&mut ids);
    let (right, mut p_right) = spawn(&mut ids);
    let (leaf, mut p_leaf) = spawn(&mut ids);
    let (deep, mut p_deep) = spawn(&mut ids);
    let (outsider, mut p_out) = spawn(&mut ids);
    let mut tree = SupervisionTree::new();
    left.link(root.clone(), &mut tree);
    right.link(root.clone(), &mut tree);
    leaf.link(left.clone(), &mut tree);
    deep.link(leaf.clone(), &mut tree);
    root.link(outsider.clone(), &mut tree);

    let visited = root.terminate(&tree);
    assert_eq!(visited, vec![0, 1, 2, 3, 4]);
    assert_eq!(exits_waiting(&mut p_root), 1);
    assert_eq!(exits_waiting(&mut p_left), 1);
    assert_eq!(exits_waiting(&mut p_right), 1);
    assert_eq!(exits_waiting(&mut p_leaf), 1);
    assert_eq!(exits_waiting(&mut p_deep), 1);
    assert_eq!(exits_waiting(&mut p_out), 0);

    let below_left = left.terminate(&tree);
    assert_eq!(below_left, vec![1, 3, 4]);
}

#[test]
fn a_stopping_actor_is_not_signalled_but_its_children_are() {
    let mut ids = ActorIdAllocator::new();
    let (a, mut pa) = spawn(&mut ids);
    let (b, mut pb) = spawn(&mut ids);
    let (c, mut pc) = spawn(&mut ids);
    let mut tree = SupervisionTree::new();
    b.link(a.clone(), &mut tree);
    c.link(b.clone(), &mut tree);
    a.set_status(ActorStatus::Upgrading);
    b.set_status(ActorStatus::Stopping);
    c.set_status(ActorStatus::Stopped);
    let visited = a.terminate(&tree);
    assert_eq!(visited, vec![0, 1, 2]);
    assert_eq!(exits_waiting(&mut pa), 1);
    assert_eq!(exits_waiting(&mut pb), 0);
    assert_eq!(exits_waiting(&mut pc), 0);

    c.set_status(ActorStatus::Running);
    let visited = b.terminate(&tree);
    assert_eq!(visited, vec![1, 2]);
    assert_eq!(exits_waiting(&mut pb), 0);
    assert_eq!(exits_waiting(&mut pc), 1);
}

#[test]
fn terminate_without_links_visits_only_the_actor() {
    let mut ids = ActorIdAllocator::new();
    let (a, mut pa) = spawn(&mut ids);
    let tree = SupervisionTree::new();
    assert_eq!(a.terminate(&tree), vec![0]);
    assert_eq!(exits_waiting(&mut pa), 1);
}

#[test]
fn terminate_ends_on_a_cycle_of_links() {
    let mut ids = ActorIdAllocator::new();
    let (a, mut pa) = spawn(&mut ids);
    let (b, mut pb) = spawn(&mut ids);
    let (c, mut pc) = spawn(&mut ids);
    let mut tree = SupervisionTree::new();
    b.link(a.clone(), &mut tree);
    c.link(b.clone(), &mut tree);
    a.link(c.clone(), &mut tree);
    a.link(a.clone(), &mut tree);
    let visited = b.terminate(&tree);
    assert_eq!(visited, vec![1, 2, 0]);
    assert_eq!(exits_waiting(&mut pa), 1);
    assert_eq!(exits_waiting(&mut pb), 1);
    assert_eq!(exits_waiting(&mut pc), 1);
}

#[test]
fn a_descendant_over_two_chains_is_visited_once() {
    let mut ids = ActorIdAllocator::new();
    let (top, _pt) = spawn(&mut ids);
    let (left, _pl) = spawn(&mut ids);
    let (right, _pr) = spawn(&mut ids);
    let (bottom, mut pb) = spawn(&mut ids);
    let mut tree = SupervisionTree::new();
    left.link(top.clone(), &mut tree);
    right.link(top.clone(), &mut tree);
    bottom.link(left.clone(), &mut tree);
    bottom.link(right.clone(), &mut tree);
    assert_eq!(top.terminate(&tree), vec![0, 1, 2, 3]);
    assert_eq!(exits_waiting(&mut pb), 1);
    assert_eq!(ids_of(&tree.descendants(&top)), vec![0, 1, 2, 3]);
    assert_eq!(ids_of(&tree.descendants(&bottom)), vec![3]);
}

#[test]
fn terminate_ignores_a_child_that_is_gone() {
    let mut ids = ActorIdAllocator::new();
    let (a, mut pa) = spawn(&mut ids);
    let (b, pb) = spawn(&mut ids);
    let (c, mut pc) = spawn(&mut ids);
    let mut tree = SupervisionTree::new();
    b.link(a.clone(), &mut tree);
    c.link(a.clone(), &mut tree);
    drop(pb);
    assert_eq!(a.terminate(&tree), vec![0, 1, 2]);
    assert_eq!(exits_waiting(&mut pa), 1);
    assert_eq!(exits_waiting(&mut pc), 1);
}

#[test]
fn terminate_children_leaves_the_actor_alone() {
    let mut ids = ActorIdAllocator::new();
    let (a, mut pa) = spawn(&mut ids);
    let (b, mut pb) = spawn(&mut ids);
    let (c, mut pc) = spawn(&mut ids);
    let (d, mut pd) = spawn(&mut ids);
    let mut tree = SupervisionTree::new();
    b.link(a.clone(), &mut tree);
    c.link(a.clone(), &mut tree);
    d.link(b.clone(), &mut tree);
    assert_eq!(tree.terminate_children(a.get_id()), vec![1, 2]);
    assert_eq!(exits_waiting(&mut pa), 0);
    assert_eq!(exits_waiting(&mut pb), 1);
    assert_eq!(exits_waiting(&mut pc), 1);
    assert_eq!(exits_waiting(&mut pd), 1);
    assert_eq!(tree.terminate_children(d.get_id()), Vec::<u64>::new());
}

#[test]
fn every_supervisor_is_notified_once() {
    let mut ids = ActorIdAllocator::new();
    let (first, mut first_ports) = spawn(&mut ids);
    let (second, mut second_ports) = spawn(&mut ids);
    let (child, mut pc) = spawn(&mut ids);
    let mut tree = SupervisionTree::new();
    child.link(first.clone(), &mut tree);
    child.link(second.clone(), &mut tree);
    let outcomes = child.notify_supervisors(
        SupervisionEvent::ActorPanicked(child.get_id(), "boom".to_string()),
        &tree,
    );
    assert_eq!(outcomes, vec![Ok(()), Ok(())]);
    for ports in [&mut first_ports, &mut second_ports] {
        match ports.supervisor_rx.try_recv().unwrap() {
            SupervisionEvent::ActorPanicked(id, text) => {
                assert_eq!(id, child.get_id());
                assert_eq!(text, "boom");
            }
            _ => panic!("expected ActorPanicked"),
        }
        assert_eq!(ports.supervisor_rx.try_recv().err(), Some(TryRecvError::Empty));
    }
    assert_eq!(pc.supervisor_rx.try_recv().err(), Some(TryRecvError::Empty));
}

#[test]
fn a_supervisor_that_is_gone_does_not_keep_the_event_from_the_others() {
    let mut ids = ActorIdAllocator::new();
    let (gone, p_gone) = spawn(&mut ids);
    let (alive, mut p_alive) = spawn(&mut ids);
    let (child, _pc) = spawn(&mut ids);
    let mut tree = SupervisionTree::new();
    child.link(gone.clone(), &mut tree);
    child.link(alive.clone(), &mut tree);
    drop(p_gone);
    let outcomes = tree.notify_supervisors(
        child.get_id(),
        &SupervisionEvent::ActorStarted(child.get_id()),
    );
    assert_eq!(outcomes, vec![Err(MessagingErr::ChannelClosed), Ok(())]);
    match p_alive.supervisor_rx.try_recv().unwrap() {
        SupervisionEvent::ActorStarted(id) => assert_eq!(id, child.get_id()),
        _ => panic!("expected ActorStarted"),
    }
}

#[test]
fn an_actor_without_supervisors_notifies_nobody() {
    let mut ids = ActorIdAllocator::new();
    let (a, _pa) = spawn(&mut ids);
    let tree = SupervisionTree::new();
    let outcomes = a.notify_supervisors(SupervisionEvent::ActorStarted(0), &tree);
    assert!(outcomes.is_empty());
}

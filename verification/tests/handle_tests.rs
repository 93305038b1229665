use ractor::actor_cell::ActorCell;
use ractor::actor_cell::ActorIdAllocator;
use ractor::actor_cell::ActorProperties;
use ractor::messages::BoxedMessage;
use ractor::messages::Message;
use ractor::messages::MessagingErr;
use ractor::messages::Signal;
use ractor::messages::SupervisionEvent;
use ractor::status::ActorStatus;
use tokio::sync::mpsc::error::TryRecvError;

const NUMBERS: u64 = 7;
const WORDS: u64 = 8;

struct Number(u64);

impl Message for Number {
    fn type_tag(&self) -> u64 {
        NUMBERS
    }
}

struct Word(String);

impl Message for Word {
    fn type_tag(&self) -> u64 {
        WORDS
    }
}

#[test]
fn identifiers_start_at_zero_and_increase() {
    let mut ids = ActorIdAllocator::new();
    assert_eq!(ids.allocate(), 0);
    assert_eq!(ids.allocate(), 1);
    assert_eq!(ids.allocate(), 2);
}

#[test]
fn new_handles_take_successive_identifiers() {
    let mut ids = ActorIdAllocator::new();
    let (first, _first_ports) = ActorCell::new(None, NUMBERS, &mut ids);
    let (second, _second_ports) = ActorCell::new(Some("second".to_string()), NUMBERS, &mut ids);
    assert_eq!(first.get_id(), 0);
    assert_eq!(second.get_id(), 1);
    assert_eq!(ids.allocate(), 2);
}

#[test]
fn name_and_message_type_are_kept() {
    let mut ids = ActorIdAllocator::new();
    let (named, _first_ports) = ActorCell::new(Some("worker".to_string()), WORDS, &mut ids);
    let (unnamed, _second_ports) = ActorCell::new(None, NUMBERS, &mut ids);
    assert_eq!(named.get_name(), Some("worker".to_string()));
    assert_eq!(unnamed.get_name(), None);
    assert_eq!(named.get_message_type(), WORDS);
    assert_eq!(unnamed.get_message_type(), NUMBERS);
}

#[test]
fn description_names_the_actor_and_its_identifier() {
    let mut ids = ActorIdAllocator::new();
    let (named, _first_ports) = ActorCell::new(Some("worker".to_string()), WORDS, &mut ids);
    let (unnamed, _second_ports) = ActorCell::new(None, NUMBERS, &mut ids);
    assert_eq!(named.describe(), "Actor 'worker' (id: 0)");
    assert_eq!(unnamed.describe(), "Actor with id: 1");
}

#[test]
fn clones_refer_to_the_same_actor() {
    let mut ids = ActorIdAllocator::new();
    let (cell, _ports) = ActorCell::new(Some("a".to_string()), NUMBERS, &mut ids);
    let copy = cell.clone();
    assert_eq!(copy.get_id(), cell.get_id());
    assert_eq!(copy.get_name(), cell.get_name());
    assert_eq!(copy.get_message_type(), cell.get_message_type());
}

#[test]
fn a_new_actor_is_unstarted() {
    let mut ids = ActorIdAllocator::new();
    let (cell, _ports) = ActorCell::new(None, NUMBERS, &mut ids);
    assert_eq!(cell.get_status(), ActorStatus::Unstarted);
}

#[test]
fn a_status_set_through_one_clone_is_read_through_all() {
    let mut ids = ActorIdAllocator::new();
    let (cell, _ports) = ActorCell::new(None, NUMBERS, &mut ids);
    let copy = cell.clone();
    cell.set_status(ActorStatus::Running);
    assert_eq!(copy.get_status(), ActorStatus::Running);
    assert_eq!(cell.get_status(), ActorStatus::Running);
    copy.set_status(ActorStatus::Stopping);
    assert_eq!(cell.get_status(), ActorStatus::Stopping);
}

#[test]
fn send_message_delivers_the_message() {
    let mut ids = ActorIdAllocator::new();
    let (cell, mut ports) = ActorCell::new(None, NUMBERS, &mut ids);
    assert_eq!(cell.send_message(Number(41)), Ok(()));
    let boxed = ports.message_rx.try_recv().unwrap();
    assert_eq!(boxed.type_tag(), NUMBERS);
    let number = boxed.take::<Number>().unwrap();
    assert_eq!(number.0, 41);
    assert_eq!(ports.message_rx.try_recv().err(), Some(TryRecvError::Empty));
}

#[test]
fn a_message_of_another_type_is_rejected_and_not_enqueued() {
    let mut ids = ActorIdAllocator::new();
    let (cell, mut ports) = ActorCell::new(None, NUMBERS, &mut ids);
    assert_eq!(
        cell.send_message(Word("hello".to_string())),
        Err(MessagingErr::InvalidActorType)
    );
    assert_eq!(ports.message_rx.try_recv().err(), Some(TryRecvError::Empty));
    assert_eq!(
        cell.send_boxed(BoxedMessage::new(WORDS, Number(1))),
        Err(MessagingErr::InvalidActorType)
    );
    assert_eq!(cell.send_boxed(BoxedMessage::new(NUMBERS, Number(1))), Ok(()));
}

#[test]
fn a_boxed_message_is_restored_only_as_its_own_type() {
    let boxed = BoxedMessage::new(WORDS, Word("text".to_string()));
    assert_eq!(boxed.type_tag(), WORDS);
    assert!(boxed.take::<Number>().is_none());
    let boxed = BoxedMessage::new(WORDS, Word("text".to_string()));
    assert_eq!(boxed.take::<Word>().unwrap().0, "text");
}

#[test]
fn sending_to_a_closed_message_port_fails() {
    let mut ids = ActorIdAllocator::new();
    let (cell, ports) = ActorCell::new(None, NUMBERS, &mut ids);
    drop(ports);
    assert_eq!(cell.send_message(Number(1)), Err(MessagingErr::ChannelClosed));
    assert_eq!(cell.cast(Number(2)), Err(MessagingErr::ChannelClosed));
}

#[test]
fn cast_keeps_the_order_of_sending() {
    let mut ids = ActorIdAllocator::new();
    let (cell, mut ports) = ActorCell::new(None, NUMBERS, &mut ids);
    for n in 0..50u64 {
        assert_eq!(cell.cast(Number(n)), Ok(()));
    }
    for n in 0..50u64 {
        let boxed = ports.message_rx.try_recv().unwrap();
        assert_eq!(boxed.take::<Number>().unwrap().0, n);
    }
    assert_eq!(ports.message_rx.try_recv().err(), Some(TryRecvError::Empty));
}

#[test]
fn cast_through_clones_keeps_the_order_of_sending() {
    let mut ids = ActorIdAllocator::new();
    let (cell, mut ports) = ActorCell::new(None, NUMBERS, &mut ids);
    let copy = cell.clone();
    assert_eq!(cell.cast(Number(1)), Ok(()));
    assert_eq!(copy.cast(Number(2)), Ok(()));
    assert_eq!(cell.cast(Number(3)), Ok(()));
    let got: Vec<u64> = (0..3)
        .map(|_| ports.message_rx.try_recv().unwrap().take::<Number>().unwrap().0)
        .collect();
    assert_eq!(got, vec![1, 2, 3]);
}

#[test]
fn stop_sends_exit_with_its_reason() {
    let mut ids = ActorIdAllocator::new();
    let (cell, mut ports) = ActorCell::new(None, NUMBERS, &mut ids);
    cell.stop(Some("done".to_string()));
    cell.stop(None);
    match ports.signal_rx.try_recv().unwrap() {
        Signal::Exit(reason) => assert_eq!(reason, Some("done".to_string())),
        Signal::Kill => panic!("expected Exit"),
    }
    match ports.signal_rx.try_recv().unwrap() {
        Signal::Exit(reason) => assert_eq!(reason, None),
        Signal::Kill => panic!("expected Exit"),
    }
    assert_eq!(ports.signal_rx.try_recv().err(), Some(TryRecvError::Empty));
}

#[test]
fn kill_sends_kill() {
    let mut ids = ActorIdAllocator::new();
    let (cell, mut ports) = ActorCell::new(None, NUMBERS, &mut ids);
    cell.kill();
    assert!(matches!(ports.signal_rx.try_recv().unwrap(), Signal::Kill));
}

#[test]
fn the_signal_port_holds_two_signals_and_drops_the_rest() {
    let mut ids = ActorIdAllocator::new();
    let (cell, mut ports) = ActorCell::new(None, NUMBERS, &mut ids);
    cell.stop(Some("first".to_string()));
    cell.kill();
    cell.stop(Some("third".to_string()));
    cell.kill();
    match ports.signal_rx.try_recv().unwrap() {
        Signal::Exit(reason) => assert_eq!(reason, Some("first".to_string())),
        Signal::Kill => panic!("expected Exit"),
    }
    assert!(matches!(ports.signal_rx.try_recv().unwrap(), Signal::Kill));
    assert_eq!(ports.signal_rx.try_recv().err(), Some(TryRecvError::Empty));
}

#[test]
fn stop_and_kill_ignore_a_closed_signal_port() {
    let mut ids = ActorIdAllocator::new();
    let (cell, ports) = ActorCell::new(None, NUMBERS, &mut ids);
    drop(ports);
    cell.stop(None);
    cell.kill();
}

#[test]
fn properties_report_a_full_and_a_closed_signal_port() {
    let mut ids = ActorIdAllocator::new();
    let (props, mut signal_rx, _supervisor_rx, _message_rx) =
        ActorProperties::new(None, NUMBERS, &mut ids);
    assert_eq!(props.send_signal(Signal::Kill), Ok(()));
    assert_eq!(props.send_signal(Signal::Kill), Ok(()));
    assert_eq!(props.send_signal(Signal::Kill), Err(MessagingErr::ChannelClosed));
    assert!(signal_rx.try_recv().is_ok());
    assert_eq!(props.send_signal(Signal::Exit(None)), Ok(()));
    drop(signal_rx);
    assert_eq!(props.send_signal(Signal::Kill), Err(MessagingErr::ChannelClosed));
}

#[test]
fn properties_deliver_messages_and_events() {
    let mut ids = ActorIdAllocator::new();
    let (props, _signal_rx, mut supervisor_rx, mut message_rx) =
        ActorProperties::new(Some("p".to_string()), NUMBERS, &mut ids);
    assert_eq!(props.get_status(), ActorStatus::Unstarted);
    props.set_status(ActorStatus::Starting);
    assert_eq!(props.get_status(), ActorStatus::Starting);
    assert_eq!(props.send_message(BoxedMessage::new(NUMBERS, Number(5))), Ok(()));
    assert_eq!(
        props.send_message(BoxedMessage::new(WORDS, Number(5))),
        Err(MessagingErr::InvalidActorType)
    );
    assert_eq!(message_rx.try_recv().unwrap().take::<Number>().unwrap().0, 5);
    assert!(message_rx.try_recv().is_err());
    assert_eq!(props.send_supervisor_evt(SupervisionEvent::ActorStarted(9)), Ok(()));
    match supervisor_rx.try_recv().unwrap() {
        SupervisionEvent::ActorStarted(id) => assert_eq!(id, 9),
        _ => panic!("expected ActorStarted"),
    }
    drop(supervisor_rx);
    assert_eq!(
        props.send_supervisor_evt(SupervisionEvent::ActorStarted(9)),
        Err(MessagingErr::ChannelClosed)
    );
}

#[test]
fn supervision_events_are_delivered_in_order() {
    let mut ids = ActorIdAllocator::new();
    let (cell, mut ports) = ActorCell::new(None, NUMBERS, &mut ids);
    assert_eq!(cell.send_supervisor_evt(SupervisionEvent::ActorStarted(3)), Ok(()));
    assert_eq!(
        cell.send_supervisor_evt(SupervisionEvent::ActorTerminated(3, Some("bye".to_string()))),
        Ok(())
    );
    assert_eq!(
        cell.send_supervisor_evt(SupervisionEvent::ActorPanicked(4, "boom".to_string())),
        Ok(())
    );
    match ports.supervisor_rx.try_recv().unwrap() {
        SupervisionEvent::ActorStarted(id) => assert_eq!(id, 3),
        _ => panic!("expected ActorStarted"),
    }
    match ports.supervisor_rx.try_recv().unwrap() {
        SupervisionEvent::ActorTerminated(id, reason) => {
            assert_eq!(id, 3);
            assert_eq!(reason, Some("bye".to_string()));
        }
        _ => panic!("expected ActorTerminated"),
    }
    match ports.supervisor_rx.try_recv().unwrap() {
        SupervisionEvent::ActorPanicked(id, text) => {
            assert_eq!(id, 4);
            assert_eq!(text, "boom");
        }
        _ => panic!("expected ActorPanicked"),
    }
}

#[test]
fn events_name_their_actor_and_copy_exactly() {
    let event = SupervisionEvent::ActorTerminated(12, Some("why".to_string()));
    assert_eq!(event.actor_id(), 12);
    match event.duplicate() {
        SupervisionEvent::ActorTerminated(id, reason) => {
            assert_eq!(id, 12);
            assert_eq!(reason, Some("why".to_string()));
        }
        _ => panic!("expected ActorTerminated"),
    }
    assert_eq!(SupervisionEvent::ActorStarted(1).actor_id(), 1);
    assert_eq!(SupervisionEvent::ActorPanicked(2, "x".to_string()).actor_id(), 2);
    match SupervisionEvent::ActorPanicked(2, "x".to_string()).duplicate() {
        SupervisionEvent::ActorPanicked(id, text) => {
            assert_eq!(id, 2);
            assert_eq!(text, "x");
        }
        _ => panic!("expected ActorPanicked"),
    }
}

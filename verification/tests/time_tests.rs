use ractor::actor_cell::ActorCell;
use ractor::actor_cell::ActorIdAllocator;
use ractor::messages::Message;
use ractor::messages::MessagingErr;
use ractor::messages::Signal;
use ractor::status::ActorStatus;
use ractor::text::exit_reason;
use ractor::time::exit_after_elapsed;
use ractor::time::interval_action;
use ractor::time::interval_check;
use ractor::time::kill_after_elapsed;
use ractor::time::send_after_elapsed;
use ractor::time::IntervalAction;

struct Tick(u32);

impl Message for Tick {
    fn type_tag(&self) -> u64 {
        3
    }
}

#[test]
fn exit_reason_names_the_delay_in_milliseconds() {
    assert_eq!(exit_reason(1500), "Exit after 1500ms");
    assert_eq!(exit_reason(0), "Exit after 0ms");
    assert_eq!(exit_reason(7), "Exit after 7ms");
    assert_eq!(exit_reason(10), "Exit after 10ms");
    assert_eq!(
        exit_reason(u128::MAX),
        "Exit after 340282366920938463463374607431768211455ms"
    );
}

#[test]
fn an_interval_runs_while_the_actor_is_active() {
    for status in [ActorStatus::Starting, ActorStatus::Running, ActorStatus::Upgrading] {
        assert_eq!(interval_action(status, None), IntervalAction::SleepThenSend);
        assert_eq!(interval_action(status, Some(Ok(()))), IntervalAction::SleepThenSend);
    }
    for status in [ActorStatus::Unstarted, ActorStatus::Stopping, ActorStatus::Stopped] {
        assert_eq!(interval_action(status, None), IntervalAction::Stop);
        assert_eq!(interval_action(status, Some(Ok(()))), IntervalAction::Stop);
    }
}

#[test]
fn an_interval_stops_after_a_failed_send() {
    for status in [
        ActorStatus::Unstarted,
        ActorStatus::Starting,
        ActorStatus::Running,
        ActorStatus::Upgrading,
        ActorStatus::Stopping,
        ActorStatus::Stopped,
    ] {
        assert_eq!(
            interval_action(status, Some(Err(MessagingErr::ChannelClosed))),
            IntervalAction::Stop
        );
        assert_eq!(
            interval_action(status, Some(Err(MessagingErr::InvalidActorType))),
            IntervalAction::Stop
        );
    }
}

#[test]
fn an_interval_follows_the_status_of_its_actor() {
    let mut ids = ActorIdAllocator::new();
    let (cell, mut ports) = ActorCell::new(None, 3, &mut ids);
    assert_eq!(interval_check(&cell, None), IntervalAction::Stop);
    cell.set_status(ActorStatus::Running);
    let mut last = None;
    let mut sent = 0;
    while interval_check(&cell, last) == IntervalAction::SleepThenSend && sent < 3 {
        last = Some(send_after_elapsed(&cell, Tick(sent)));
        sent += 1;
    }
    assert_eq!(sent, 3);
    for n in 0..3 {
        assert_eq!(ports.message_rx.try_recv().unwrap().take::<Tick>().unwrap().0, n);
    }
    drop(ports);
    let failed = send_after_elapsed(&cell, Tick(9));
    assert_eq!(failed, Err(MessagingErr::ChannelClosed));
    assert_eq!(interval_check(&cell, Some(failed)), IntervalAction::Stop);
    cell.set_status(ActorStatus::Stopped);
    assert_eq!(interval_check(&cell, Some(Ok(()))), IntervalAction::Stop);
}

#[test]
fn a_timed_exit_stops_the_actor_with_the_delay_as_reason() {
    let mut ids = ActorIdAllocator::new();
    let (cell, mut ports) = ActorCell::new(None, 3, &mut ids);
    exit_after_elapsed(&cell, 250);
    match ports.signal_rx.try_recv().unwrap() {
        Signal::Exit(reason) => assert_eq!(reason, Some("Exit after 250ms".to_string())),
        Signal::Kill => panic!("expected Exit"),
    }
    assert!(ports.signal_rx.try_recv().is_err());
}

#[test]
fn a_timed_kill_kills_the_actor() {
    let mut ids = ActorIdAllocator::new();
    let (cell, mut ports) = ActorCell::new(None, 3, &mut ids);
    kill_after_elapsed(&cell);
    assert!(matches!(ports.signal_rx.try_recv().unwrap(), Signal::Kill));
    assert!(ports.signal_rx.try_recv().is_err());
}

#[test]
fn a_delayed_send_reports_its_outcome() {
    let mut ids = ActorIdAllocator::new();
    let (cell, mut ports) = ActorCell::new(None, 3, &mut ids);
    assert_eq!(send_after_elapsed(&cell, Tick(4)), Ok(()));
    assert_eq!(ports.message_rx.try_recv().unwrap().take::<Tick>().unwrap().0, 4);
    drop(ports);
    assert_eq!(send_after_elapsed(&cell, Tick(5)), Err(MessagingErr::ChannelClosed));
}

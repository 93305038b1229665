//! Timed sends: what a timer does once its delay has elapsed, and whether a
//! periodic sender goes on.
//!
//! Sleeping is done by the runtime outside this library, which calls these
//! functions between sleeps. A timer treats a failed send as the end of the
//! actor and never tries again.

use crate::actor_cell::ActorCell;
use crate::messages::is_tag_of;
use crate::messages::Message;
use crate::messages::MessagingErr;
use crate::messages::Signal;
use crate::status::ActorStatus;
use crate::text::exit_reason;
use crate::text::exit_reason_text;
use vstd::prelude::*;

verus! {

/// What a periodic sender does next.
#[derive(Debug, Clone, Copy, PartialEq, Eq, Structural)]
pub enum IntervalAction {
    /// Sleep for one period, then send the next message.
    SleepThenSend,
    /// End the task.
    Stop,
}

/// Whether a periodic sender goes on, given the actor's stage and the outcome
/// of the last send, if there was one: it goes on while the actor is active
/// and no send has failed.
pub open spec fn interval_goes_on(
    status: ActorStatus,
    last_send: Option<Result<(), MessagingErr>>,
) -> bool {
    status.active() && !(last_send matches Some(Err(_)))
}

/// Decides what a periodic sender does next.
pub fn interval_action(status: ActorStatus, last_send: Option<Result<(), MessagingErr>>) -> (action:
    IntervalAction)
    ensures
        action == IntervalAction::SleepThenSend <==> interval_goes_on(status, last_send),
        action == IntervalAction::Stop <==> !interval_goes_on(status, last_send),
{
    match last_send {
        Some(Err(_)) => IntervalAction::Stop,
        _ => {
            if status.is_active() {
                IntervalAction::SleepThenSend
            } else {
                IntervalAction::Stop
            }
        },
    }
}

/// A periodic sender stops for good: once a send has failed, no stage of the
/// actor starts it again, and a stopping or stopped actor is never sent to.
pub proof fn lemma_interval_stops(status: ActorStatus, failure: MessagingErr)
    ensures
        !interval_goes_on(status, Some(Err(failure))),
        !status.signals_on_terminate() ==> !interval_goes_on(status, None),
        status == ActorStatus::Unstarted ==> !interval_goes_on(status, None),
{
}

/// What a periodic sender does before its next sleep: reads the actor's stage
/// and decides with [`interval_action`].
pub fn interval_check(actor: &ActorCell, last_send: Option<Result<(), MessagingErr>>) -> (action:
    IntervalAction)
    ensures
        exists|status: ActorStatus| #[trigger]
            actor.may_read_status(status) && action == interval_decision(status, last_send),
        last_send matches Some(Err(_)) ==> action == IntervalAction::Stop,
{
    let status = actor.get_status();
    interval_action(status, last_send)
}

/// What a periodic sender does next, given the actor's stage and the outcome of
/// the last send: it sleeps and sends while it goes on, and stops otherwise.
pub open spec fn interval_decision(
    status: ActorStatus,
    last_send: Option<Result<(), MessagingErr>>,
) -> IntervalAction {
    if interval_goes_on(status, last_send) {
        IntervalAction::SleepThenSend
    } else {
        IntervalAction::Stop
    }
}

/// What a delayed send does once its delay has elapsed: sends the message and
/// hands back the outcome.
pub fn send_after_elapsed<M: Message + 'static>(actor: &ActorCell, msg: M) -> (result: Result<
    (),
    MessagingErr,
>)
    ensures
        actor.sends_message(msg, result),
        exists|tag: u64| #[trigger] is_tag_of(msg, tag) && actor.answers_tag(tag, result),
{
    actor.send_message(msg)
}

/// What a timed exit does once its delay of `period_ms` milliseconds has
/// elapsed: asks the actor to stop, with the delay as the reason.
pub fn exit_after_elapsed(actor: &ActorCell, period_ms: u128)
    ensures
        exists|reason: String| #[trigger]
            actor.was_offered(Signal::Exit(Some(reason))) && reason@ == exit_reason_text(
                period_ms as nat,
            ),
{
    let reason = exit_reason(period_ms);
    let ghost given = reason;
    actor.stop(Some(reason));
    assert(actor.was_offered(Signal::Exit(Some(given))));
}

/// What a timed kill does once its delay has elapsed: asks the actor to
/// terminate at once.
pub fn kill_after_elapsed(actor: &ActorCell)
    ensures
        actor.was_offered(Signal::Kill),
{
    actor.kill()
}

} // verus!

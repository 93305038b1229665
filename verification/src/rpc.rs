//! Request and reply: the reply slot that travels inside a call message, and
//! what a caller is told once waiting for the reply has ended.
//!
//! Waiting itself, with or without a timeout, is done by the runtime outside
//! this library. The library creates the slot, builds and sends the message,
//! and turns what the wait produced into the caller's result.

use crate::actor_cell::ActorCell;
use crate::messages::is_tag_of;
use crate::messages::Message;
use crate::messages::MessagingErr;
use crate::port::delivery_result;
use crate::port::report_delivery;
use crate::port::SendFailure;
use vstd::prelude::*;

verus! {

/// The writing end of tokio's one-shot channel.
#[verifier::external_type_specification]
#[verifier::external_body]
#[verifier::reject_recursive_types(T)]
pub struct ExReplySender<T>(tokio::sync::oneshot::Sender<T>);

/// The reading end of tokio's one-shot channel.
#[verifier::external_type_specification]
#[verifier::external_body]
#[verifier::reject_recursive_types(T)]
pub struct ExReplyReceiver<T>(tokio::sync::oneshot::Receiver<T>);

/// The error with which waiting on a one-shot channel ends when the writing
/// end was dropped. No function here names it; it is declared because the
/// reading end is a future of this error, and the verifier asks for every type
/// in the impls of a declared type.
#[verifier::external_type_specification]
#[verifier::external_body]
pub struct ExRecvError(tokio::sync::oneshot::error::RecvError);

/// `tokio::sync::oneshot::channel` creates a channel for a single value.
pub assume_specification<T>[ tokio::sync::oneshot::channel::<T> ]() -> (ends: (
    tokio::sync::oneshot::Sender<T>,
    tokio::sync::oneshot::Receiver<T>,
));

/// Calls `oneshot::Sender::send`, which never waits and hands the value back
/// when the reading end is gone; that one error is reported as `Closed`.
/// Whether the reader is still there is not known here.
#[verifier::external_body]
fn send_once<T>(slot: tokio::sync::oneshot::Sender<T>, value: T) -> (outcome: Result<
    (),
    SendFailure,
>)
    ensures
        outcome.is_err() ==> outcome.unwrap_err() == SendFailure::Closed,
{
    match slot.send(value) {
        Ok(()) => Ok(()),
        Err(_) => Err(SendFailure::Closed),
    }
}

/// Calls `oneshot::Sender::is_closed`, which tells whether the reading end
/// has been closed or dropped by now.
#[verifier::external_body]
fn reader_gone<T>(slot: &tokio::sync::oneshot::Sender<T>) -> (gone: bool) {
    slot.is_closed()
}

/// The reply slot of one call. The callee writes the reply into it, once; the
/// caller waits on the other end.
#[verifier::reject_recursive_types(T)]
pub struct RpcReplyPort<T> {
    slot: tokio::sync::oneshot::Sender<T>,
}

impl<T> RpcReplyPort<T> {
    /// Writes the reply. The slot is used up by this. Fails with
    /// `ChannelClosed` where the caller no longer waits.
    pub fn send(self, value: T) -> (result: Result<(), MessagingErr>)
        ensures
            exists|outcome: Result<(), SendFailure>| #[trigger]
                self.slot_answers(value, outcome) && result == delivery_result(outcome),
            result is Err ==> result == Err::<(), MessagingErr>(MessagingErr::ChannelClosed),
    {
        let ghost written = value;
        let outcome = send_once(self.slot, value);
        assert(self.slot_answers(written, outcome));
        report_delivery(outcome)
    }

    /// Whether the caller has stopped waiting, so that a reply would be lost.
    pub fn is_closed(&self) -> (closed: bool)
        ensures
            self.reports_closed(closed),
    {
        reader_gone(&self.slot)
    }

    /// Whether `closed` is what the slot answered when it was asked whether
    /// its reading end is gone.
    pub closed spec fn reports_closed(self, closed: bool) -> bool {
        call_ensures(reader_gone::<T>, (&self.slot,), closed)
    }

    /// Whether `outcome` is what the slot answered when `value` was written
    /// into it.
    pub closed spec fn slot_answers(self, value: T, outcome: Result<(), SendFailure>) -> bool {
        call_ensures(send_once::<T>, (self.slot, value), outcome)
    }

    /// Whether this port and `reply` are the writing and the reading end of
    /// one channel, made together.
    pub closed spec fn pairs_with(self, reply: tokio::sync::oneshot::Receiver<T>) -> bool {
        call_ensures(tokio::sync::oneshot::channel::<T>, (), (self.slot, reply))
    }
}

/// How a call ended. Exactly one of the three holds of every call.
#[derive(Debug, PartialEq, Eq)]
pub enum CallResult<T> {
    /// The callee replied with this value.
    Success(T),
    /// No reply came within the timeout.
    Timeout,
    /// The callee dropped the reply slot without writing to it.
    SenderError,
}

/// What waiting on a reply slot produced.
pub enum ReplyWait<T> {
    /// The reply arrived.
    Replied(T),
    /// The slot was dropped without a reply.
    Dropped,
    /// The timeout elapsed first.
    Elapsed,
}

impl<T> CallResult<T> {
    /// The result that a caller is told for what the wait produced.
    pub open spec fn of_wait(wait: ReplyWait<T>) -> CallResult<T> {
        match wait {
            ReplyWait::Replied(value) => CallResult::Success(value),
            ReplyWait::Dropped => CallResult::SenderError,
            ReplyWait::Elapsed => CallResult::Timeout,
        }
    }

    /// Turns what the wait produced into the caller's result: the reply itself,
    /// `SenderError` for a dropped slot, `Timeout` for an elapsed timeout.
    pub fn from_wait(wait: ReplyWait<T>) -> (result: CallResult<T>)
        ensures
            result == CallResult::of_wait(wait),
    {
        match wait {
            ReplyWait::Replied(value) => CallResult::Success(value),
            ReplyWait::Dropped => CallResult::SenderError,
            ReplyWait::Elapsed => CallResult::Timeout,
        }
    }

    /// Whether the call brought a reply.
    pub fn is_success(&self) -> (yes: bool)
        ensures
            yes == (*self is Success),
    {
        match self {
            CallResult::Success(_) => true,
            _ => false,
        }
    }
}

/// A call ends in exactly one way, and only a reply that arrived is handed on,
/// unchanged.
pub proof fn lemma_one_outcome<T>(wait: ReplyWait<T>)
    ensures
        (CallResult::of_wait(wait) is Success) <==> (wait is Replied),
        (CallResult::of_wait(wait) is Timeout) <==> (wait is Elapsed),
        (CallResult::of_wait(wait) is SenderError) <==> (wait is Dropped),
        wait is Replied ==> CallResult::of_wait(wait) == CallResult::Success(wait->Replied_0),
{
}

impl ActorCell {
    /// Starts a call: creates a fresh reply slot, lets `msg_builder` put it
    /// into a message, and sends that message to this actor. On success the
    /// reading end of the slot is handed back for the caller to wait on; where
    /// the message could not be sent, the error is.
    pub fn call<M: Message + 'static, R, B: FnOnce(RpcReplyPort<R>) -> M>(
        &self,
        msg_builder: B,
    ) -> (started: Result<tokio::sync::oneshot::Receiver<R>, MessagingErr>)
        requires
            forall|port: RpcReplyPort<R>| msg_builder.requires((port,)),
        ensures
            exists|port: RpcReplyPort<R>, message: M|
                #![trigger msg_builder.ensures((port,), message)]
                msg_builder.ensures((port,), message) && self.sends_message(
                    message,
                    sending_result(started),
                ) && (started matches Ok(reply) ==> port.pairs_with(reply)),
            exists|port: RpcReplyPort<R>, message: M, tag: u64|
                #![trigger msg_builder.ensures((port,), message), is_tag_of(message, tag)]
                msg_builder.ensures((port,), message) && is_tag_of(message, tag)
                    && self.answers_tag(tag, sending_result(started)) && (started matches Ok(
                    reply,
                ) ==> port.pairs_with(reply)),
    {
        let (slot, reply) = tokio::sync::oneshot::channel::<R>();
        let port = RpcReplyPort { slot };
        let ghost given = port;
        assert(given.pairs_with(reply));
        let message = msg_builder(port);
        let ghost built = message;
        let sent = self.send_message(message);
        proof {
            let tag = choose|tag: u64| #[trigger] is_tag_of(built, tag) && self.answers_tag(tag, sent);
            assert(msg_builder.ensures((given,), built) && is_tag_of(built, tag));
        }
        match sent {
            Ok(()) => Ok(reply),
            Err(err) => Err(err),
        }
    }
}

/// Whether the message of a call was sent: success where the call was started,
/// and the error with which it was not.
pub open spec fn sending_result<R>(
    started: Result<tokio::sync::oneshot::Receiver<R>, MessagingErr>,
) -> Result<(), MessagingErr> {
    match started {
        Ok(_) => Ok(()),
        Err(err) => Err(err),
    }
}

/// Ends a call whose reply goes on to another actor. A reply that arrived is
/// turned into a message by `forward_mapping` and sent to `response_forward`,
/// and the outcome of that send is the call's success value. A call that timed
/// out or got no reply is reported as such, and nothing is sent.
pub fn forward_reply<R, F: FnOnce(R) -> M, M: Message + 'static>(
    outcome: CallResult<R>,
    response_forward: &ActorCell,
    forward_mapping: F,
) -> (result: CallResult<Result<(), MessagingErr>>)
    requires
        forall|reply: R| forward_mapping.requires((reply,)),
    ensures
        outcome is Success <==> result is Success,
        outcome is Timeout <==> result is Timeout,
        outcome is SenderError <==> result is SenderError,
        outcome matches CallResult::Success(reply) ==> exists|message: M| #[trigger]
            forward_mapping.ensures((reply,), message) && response_forward.sends_message(
                message,
                result->Success_0,
            ),
        outcome matches CallResult::Success(reply) ==> exists|message: M, tag: u64|
            #![trigger forward_mapping.ensures((reply,), message), is_tag_of(message, tag)]
            forward_mapping.ensures((reply,), message) && is_tag_of(message, tag)
                && response_forward.answers_tag(tag, result->Success_0),
{
    match outcome {
        CallResult::Success(reply) => {
            let ghost arrived = reply;
            let message = forward_mapping(reply);
            let ghost mapped = message;
            let sent = response_forward.send_message(message);
            proof {
                let tag = choose|tag: u64| #[trigger]
                    is_tag_of(mapped, tag) && response_forward.answers_tag(tag, sent);
                assert(forward_mapping.ensures((arrived,), mapped) && is_tag_of(mapped, tag));
            }
            CallResult::Success(sent)
        },
        CallResult::Timeout => CallResult::Timeout,
        CallResult::SenderError => CallResult::SenderError,
    }
}

} // verus!

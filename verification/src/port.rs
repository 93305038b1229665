//! The channels behind an actor's ports.
//!
//! The ports are tokio's multi-producer, single-consumer channels. What a send
//! returns depends on what the receiving side has done in the meantime, so the
//! wrappers here promise nothing about which outcome comes back; the verified
//! code around them handles every outcome.

use crate::messages::MessagingErr;
use vstd::prelude::*;

verus! {

/// The sending end of tokio's bounded channel.
#[verifier::external_type_specification]
#[verifier::external_body]
#[verifier::reject_recursive_types(T)]
pub struct ExSender<T>(tokio::sync::mpsc::Sender<T>);

/// The receiving end of tokio's bounded channel.
#[verifier::external_type_specification]
#[verifier::external_body]
#[verifier::reject_recursive_types(T)]
pub struct ExReceiver<T>(tokio::sync::mpsc::Receiver<T>);

/// The sending end of tokio's unbounded channel.
#[verifier::external_type_specification]
#[verifier::external_body]
#[verifier::reject_recursive_types(T)]
pub struct ExUnboundedSender<T>(tokio::sync::mpsc::UnboundedSender<T>);

/// The receiving end of tokio's unbounded channel.
#[verifier::external_type_specification]
#[verifier::external_body]
#[verifier::reject_recursive_types(T)]
pub struct ExUnboundedReceiver<T>(tokio::sync::mpsc::UnboundedReceiver<T>);

/// The number of signals that a signal port holds before further signals are
/// dropped.
pub const SIGNAL_PORT_CAPACITY: usize = 2;

/// The largest capacity that a bounded channel accepts.
pub const MAX_PORT_CAPACITY: usize = usize::MAX / 8;

/// Why a port did not take a message.
#[derive(Debug, Clone, Copy, PartialEq, Eq, Structural)]
pub enum SendFailure {
    /// The bounded port holds as many messages as it has room for.
    Full,
    /// The receiving end was closed or dropped.
    Closed,
}

/// `tokio::sync::mpsc::channel` creates a bounded channel. It panics on a
/// capacity of zero or above `usize::MAX >> 3`, which is `usize::MAX / 8`;
/// `requires` leaves both out.
pub assume_specification<T>[ tokio::sync::mpsc::channel::<T> ](buffer: usize) -> (ends: (
    tokio::sync::mpsc::Sender<T>,
    tokio::sync::mpsc::Receiver<T>,
))
    requires
        0 < buffer <= MAX_PORT_CAPACITY,
;

/// `tokio::sync::mpsc::unbounded_channel` creates an unbounded channel.
pub assume_specification<T>[ tokio::sync::mpsc::unbounded_channel::<T> ]() -> (ends: (
    tokio::sync::mpsc::UnboundedSender<T>,
    tokio::sync::mpsc::UnboundedReceiver<T>,
));

/// Calls `Sender::try_send`, which never blocks, and tells its two errors
/// apart. Whether the message is taken depends on the receiver, so no outcome
/// is promised.
#[verifier::external_body]
pub(crate) fn try_send<T>(port: &tokio::sync::mpsc::Sender<T>, message: T) -> (outcome: Result<
    (),
    SendFailure,
>) {
    match port.try_send(message) {
        Ok(()) => Ok(()),
        Err(tokio::sync::mpsc::error::TrySendError::Full(_)) => Err(SendFailure::Full),
        Err(tokio::sync::mpsc::error::TrySendError::Closed(_)) => Err(SendFailure::Closed),
    }
}

/// Calls `UnboundedSender::send`, which never blocks and fails only when the
/// receiving end is closed; its one error is reported as `Closed`. Whether the
/// receiver is still there is not known here, so no outcome is promised. With
/// about `usize::MAX / 2` messages waiting at once tokio ends the process; no
/// memory holds that many.
#[verifier::external_body]
pub(crate) fn send_unbounded<T>(
    port: &tokio::sync::mpsc::UnboundedSender<T>,
    message: T,
) -> (outcome: Result<(), SendFailure>)
    ensures
        outcome.is_err() ==> outcome.unwrap_err() == SendFailure::Closed,
{
    match port.send(message) {
        Ok(()) => Ok(()),
        Err(_) => Err(SendFailure::Closed),
    }
}

impl MessagingErr {
    /// The messaging error that stands for a port's refusal. A full signal
    /// port and a closed port are reported alike.
    pub open spec fn of_failure(failure: SendFailure) -> MessagingErr {
        MessagingErr::ChannelClosed
    }

    /// The messaging error that stands for a port's refusal.
    pub fn from_failure(failure: SendFailure) -> (err: MessagingErr)
        ensures
            err == MessagingErr::of_failure(failure),
            err == MessagingErr::ChannelClosed,
    {
        match failure {
            SendFailure::Full => MessagingErr::ChannelClosed,
            SendFailure::Closed => MessagingErr::ChannelClosed,
        }
    }
}

/// What a caller of a send operation is told, for every outcome of the port.
pub open spec fn delivery_result(outcome: Result<(), SendFailure>) -> Result<(), MessagingErr> {
    match outcome {
        Ok(()) => Ok(()),
        Err(failure) => Err(MessagingErr::of_failure(failure)),
    }
}

/// Turns a port's outcome into what the caller of a send operation is told:
/// success stays success, and every refusal becomes a messaging error.
pub fn report_delivery(outcome: Result<(), SendFailure>) -> (result: Result<(), MessagingErr>)
    ensures
        result == delivery_result(outcome),
        result is Ok <==> outcome is Ok,
{
    match outcome {
        Ok(()) => Ok(()),
        Err(failure) => Err(MessagingErr::from_failure(failure)),
    }
}

} // verus!

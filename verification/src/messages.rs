//! What travels over an actor's ports, and how a failed send is reported.

use vstd::prelude::*;

verus! {

/// The process-unique identifier of an actor.
pub type ActorId = u64;

/// Why a message could not be handed to an actor.
#[derive(Debug, Clone, Copy, PartialEq, Eq, Structural)]
pub enum MessagingErr {
    /// The receiving end of the port is gone, or the bounded signal port has
    /// no room left.
    ChannelClosed,
    /// The message is not of the type that the receiving actor accepts.
    InvalidActorType,
}

/// A control signal, delivered ahead of ordinary messages.
pub enum Signal {
    /// Graceful termination, with the reason the sender gave.
    Exit(Option<String>),
    /// Immediate termination.
    Kill,
}

impl Signal {
    /// Whether the signal is `Exit`.
    pub open spec fn is_exit(self) -> bool {
        self is Exit
    }
}

/// A notification about a supervised actor, sent to its supervisors.
pub enum SupervisionEvent {
    /// The actor with this id has started.
    ActorStarted(ActorId),
    /// The actor with this id has terminated, with the reason if one is known.
    ActorTerminated(ActorId, Option<String>),
    /// The actor with this id has failed, with a description of the failure.
    ActorPanicked(ActorId, String),
}

impl SupervisionEvent {
    /// The actor that the event is about.
    pub open spec fn subject(self) -> ActorId {
        match self {
            SupervisionEvent::ActorStarted(id) => id,
            SupervisionEvent::ActorTerminated(id, _) => id,
            SupervisionEvent::ActorPanicked(id, _) => id,
        }
    }

    /// The actor that the event is about.
    pub fn actor_id(&self) -> (id: ActorId)
        ensures
            id == self.subject(),
    {
        match self {
            SupervisionEvent::ActorStarted(id) => *id,
            SupervisionEvent::ActorTerminated(id, _) => *id,
            SupervisionEvent::ActorPanicked(id, _) => *id,
        }
    }

    /// A copy of the event, so that each supervisor receives its own.
    pub fn duplicate(&self) -> (copy: SupervisionEvent)
        ensures
            copy == *self,
    {
        match self {
            SupervisionEvent::ActorStarted(id) => SupervisionEvent::ActorStarted(*id),
            SupervisionEvent::ActorTerminated(id, reason) => {
                let reason_copy = match reason {
                    Some(text) => Some(text.clone()),
                    None => None,
                };
                SupervisionEvent::ActorTerminated(*id, reason_copy)
            },
            SupervisionEvent::ActorPanicked(id, text) => SupervisionEvent::ActorPanicked(
                *id,
                text.clone(),
            ),
        }
    }
}

/// A message that an actor can receive. Its tag names the message type, so
/// that a handle can tell whether its actor accepts the message.
pub trait Message: Send {
    /// The tag of the message's type.
    fn type_tag(&self) -> u64;
}

/// Whether `tag` is a tag that the message's own [`Message::type_tag`]
/// returns for it.
pub open spec fn is_tag_of<M: Message>(message: M, tag: u64) -> bool {
    call_ensures(M::type_tag, (&message,), tag)
}

/// A value of any type behind std's `Box<dyn Any + Send>`. The verifier cannot
/// look into such a box, so nothing is known of what it holds.
#[verifier::external_body]
pub struct Payload {
    value: Box<dyn core::any::Any + Send>,
}

/// Moves a value into a `Box` and forgets its type, as the coercion to
/// `Box<dyn Any + Send>` does.
#[verifier::external_body]
fn erase<T: Send + 'static>(value: T) -> (payload: Payload) {
    Payload { value: Box::new(value) }
}

/// Calls `Box<dyn Any + Send>::downcast`, which hands the value back if it is
/// of type `T` and fails otherwise. So a box that came of erasing the type of a
/// `T` gives that very value back. Of a box that holds another type nothing is
/// said: types are not visible here.
#[verifier::external_body]
fn restore<T: Send + 'static>(payload: Payload) -> (value: Option<T>)
    ensures
        forall|boxed: T| #[trigger] call_ensures(erase::<T>, (boxed,), payload) ==> value == Some(boxed),
{
    match payload.value.downcast::<T>() {
        Ok(boxed) => Some(*boxed),
        Err(_) => None,
    }
}

/// A message with its concrete type erased, as it travels over the message
/// port. Only the receiving actor restores the concrete type.
pub struct BoxedMessage {
    type_tag: u64,
    payload: Payload,
}

impl BoxedMessage {
    /// The tag under which the message was boxed.
    pub closed spec fn tag(self) -> u64 {
        self.type_tag
    }

    /// Boxes `message` under the tag `type_tag`.
    pub fn new<M: Message + 'static>(type_tag: u64, message: M) -> (boxed: BoxedMessage)
        ensures
            boxed.tag() == type_tag,
            boxed.carries(message),
    {
        BoxedMessage { type_tag, payload: erase(message) }
    }

    /// Whether the envelope's payload is what came of erasing the type of
    /// `message`.
    pub closed spec fn carries<M: Send + 'static>(self, message: M) -> bool {
        call_ensures(erase::<M>, (message,), self.payload)
    }

    /// Whether `message` is what came of restoring the envelope's payload as a
    /// `T`.
    pub closed spec fn restores_as<T: Send + 'static>(self, message: Option<T>) -> bool {
        call_ensures(restore::<T>, (self.payload,), message)
    }

    /// The tag under which the message was boxed.
    pub fn type_tag(&self) -> (tag: u64)
        ensures
            tag == self.tag(),
    {
        self.type_tag
    }

    /// Opens the envelope and restores the message as a `T`, if that is the
    /// type that was boxed. An envelope that carries a `T` gives that very
    /// message back.
    pub fn take<T: Send + 'static>(self) -> (message: Option<T>)
        ensures
            self.restores_as(message),
            forall|boxed: T| #[trigger] self.carries(boxed) ==> message == Some(boxed),
    {
        restore(self.payload)
    }
}

} // verus!

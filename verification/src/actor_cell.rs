//! The actor handle: a cheaply cloned reference to one actor, made of its
//! identity, its status register and the sending ends of its three ports.

use crate::messages::is_tag_of;
use crate::messages::ActorId;
use crate::messages::BoxedMessage;
use crate::messages::Message;
use crate::messages::MessagingErr;
use crate::messages::Signal;
use crate::messages::SupervisionEvent;
use crate::port::delivery_result;
use crate::port::report_delivery;
use crate::port::send_unbounded;
use crate::port::try_send;
use crate::port::SendFailure;
use crate::port::SIGNAL_PORT_CAPACITY;
use crate::status::ActorStatus;
use crate::status::StatusRegister;
use std::sync::Arc;
use vstd::prelude::*;

verus! {

/// The source of actor identifiers: a counter that starts at zero, hands out
/// each value once and is never reset.
pub struct ActorIdAllocator {
    next: u64,
}

impl ActorIdAllocator {
    /// The identifier that the next allocation hands out.
    pub closed spec fn upcoming(self) -> ActorId {
        self.next
    }

    /// Whether an allocation that finds the counter as `self` hands out `id`
    /// and leaves the counter as `after`: the identifier is the upcoming one,
    /// and the counter moves on by one, or back to zero after `u64::MAX`.
    pub open spec fn hands_out(self, after: ActorIdAllocator, id: ActorId) -> bool {
        &&& id == self.upcoming()
        &&& self.upcoming() < u64::MAX ==> after.upcoming() == id + 1
        &&& self.upcoming() == u64::MAX ==> after.upcoming() == 0
    }

    /// A counter that starts at zero.
    pub fn new() -> (ids: ActorIdAllocator)
        ensures
            ids.upcoming() == 0,
    {
        ActorIdAllocator { next: 0 }
    }

    /// Hands out the upcoming identifier and moves the counter on by one. After
    /// `u64::MAX` the counter starts over at zero.
    pub fn allocate(&mut self) -> (id: ActorId)
        ensures
            old(self).hands_out(*final(self), id),
    {
        let id = self.next;
        self.next = if id == u64::MAX {
            0
        } else {
            id + 1
        };
        id
    }
}

/// Whether `ids` are the identifiers that a run of allocations hands out, one
/// after the other, with `states` as the counter before, between and after
/// them.
pub open spec fn is_allocation_run(states: Seq<ActorIdAllocator>, ids: Seq<ActorId>) -> bool {
    &&& states.len() == ids.len() + 1
    &&& forall|i: int, next: int|
        0 <= i < ids.len() && next == i + 1 ==> (#[trigger] states[i]).hands_out(
            #[trigger] states[next],
            ids[i],
        )
}

/// A fresh counter hands out 0, 1, 2 and so on: the allocation at place `k` of
/// a run hands out `k`. So identifiers increase and none is handed out twice,
/// up to `u64::MAX` allocations.
pub proof fn lemma_ids_count_up(states: Seq<ActorIdAllocator>, ids: Seq<ActorId>, k: int)
    requires
        is_allocation_run(states, ids),
        states[0].upcoming() == 0,
        0 <= k < ids.len(),
        k <= u64::MAX,
    ensures
        ids[k] == k,
        states[k].upcoming() == k,
    decreases k,
{
    if k > 0 {
        lemma_ids_count_up(states, ids, k - 1);
        assert(states[k - 1].hands_out(states[k], ids[k - 1]));
    }
    assert(states[k].hands_out(states[k + 1], ids[k]));
}

/// Two allocations of one run, made from a fresh counter, never hand out the
/// same identifier, and the later one hands out the larger.
pub proof fn lemma_ids_never_repeat(
    states: Seq<ActorIdAllocator>,
    ids: Seq<ActorId>,
    earlier: int,
    later: int,
)
    requires
        is_allocation_run(states, ids),
        states[0].upcoming() == 0,
        0 <= earlier < later < ids.len(),
        later <= u64::MAX,
    ensures
        ids[earlier] < ids[later],
{
    lemma_ids_count_up(states, ids, earlier);
    lemma_ids_count_up(states, ids, later);
}

/// The receiving ends of an actor's ports. They are created together with the
/// handle and belong to the actor's execution loop alone.
pub struct ActorPortSet {
    /// Where control signals arrive; holds at most two of them.
    pub signal_rx: tokio::sync::mpsc::Receiver<Signal>,
    /// Where supervision events arrive.
    pub supervisor_rx: tokio::sync::mpsc::UnboundedReceiver<SupervisionEvent>,
    /// Where ordinary messages arrive.
    pub message_rx: tokio::sync::mpsc::UnboundedReceiver<BoxedMessage>,
}

/// What every clone of a handle shares.
pub struct ActorProperties {
    id: ActorId,
    name: Option<String>,
    message_type: u64,
    status: StatusRegister,
    signal: tokio::sync::mpsc::Sender<Signal>,
    supervision: tokio::sync::mpsc::UnboundedSender<SupervisionEvent>,
    message: tokio::sync::mpsc::UnboundedSender<BoxedMessage>,
}

impl ActorProperties {
    /// The actor's identifier.
    pub closed spec fn id(self) -> ActorId {
        self.id
    }

    /// The actor's name, if it has one.
    pub closed spec fn name(self) -> Option<String> {
        self.name
    }

    /// The tag of the message type that the actor accepts.
    pub closed spec fn message_type(self) -> u64 {
        self.message_type
    }

    /// Whether `status` is a stage that the actor's status register gave when
    /// it was read.
    pub closed spec fn may_read_status(self, status: ActorStatus) -> bool {
        self.status.may_read(status)
    }

    /// Whether `outcome` is what the signal port answered when it was offered
    /// `signal`.
    pub closed spec fn signal_port_answers(
        self,
        signal: Signal,
        outcome: Result<(), SendFailure>,
    ) -> bool {
        call_ensures(try_send::<Signal>, (&self.signal, signal), outcome)
    }

    /// Whether `outcome` is what the supervision port answered when it was
    /// handed `event`.
    pub closed spec fn supervision_port_answers(
        self,
        event: SupervisionEvent,
        outcome: Result<(), SendFailure>,
    ) -> bool {
        call_ensures(send_unbounded::<SupervisionEvent>, (&self.supervision, event), outcome)
    }

    /// Whether `outcome` is what the message port answered when it was handed
    /// `message`.
    pub closed spec fn message_port_answers(
        self,
        message: BoxedMessage,
        outcome: Result<(), SendFailure>,
    ) -> bool {
        call_ensures(send_unbounded::<BoxedMessage>, (&self.message, message), outcome)
    }

    /// Whether the status register was made with `status` in it.
    pub closed spec fn starts_as(self, status: ActorStatus) -> bool {
        self.status.made_holding(status)
    }

    /// Whether `status` was handed to a store into the status register.
    pub closed spec fn status_stored(self, status: ActorStatus) -> bool {
        self.status.was_stored(status)
    }

    /// Whether the three sending ends were made together with the three given
    /// receiving ends, each pair as one channel, and the signal channel with
    /// room for `capacity` signals.
    pub closed spec fn ports_pair_with(
        self,
        capacity: usize,
        signal_rx: tokio::sync::mpsc::Receiver<Signal>,
        supervisor_rx: tokio::sync::mpsc::UnboundedReceiver<SupervisionEvent>,
        message_rx: tokio::sync::mpsc::UnboundedReceiver<BoxedMessage>,
    ) -> bool {
        &&& call_ensures(
            tokio::sync::mpsc::channel::<Signal>,
            (capacity,),
            (self.signal, signal_rx),
        )
        &&& call_ensures(
            tokio::sync::mpsc::unbounded_channel::<SupervisionEvent>,
            (),
            (self.supervision, supervisor_rx),
        )
        &&& call_ensures(
            tokio::sync::mpsc::unbounded_channel::<BoxedMessage>,
            (),
            (self.message, message_rx),
        )
    }

    /// Whether `result` is what sending `message` gives: `InvalidActorType`
    /// where the actor does not accept its tag, and otherwise the report of
    /// what the message port answered when it was handed this message.
    pub open spec fn sends(self, message: BoxedMessage, result: Result<(), MessagingErr>) -> bool {
        if message.tag() != self.message_type() {
            result == Err::<(), MessagingErr>(MessagingErr::InvalidActorType)
        } else {
            exists|outcome: Result<(), SendFailure>| #[trigger]
                self.message_port_answers(message, outcome) && result == delivery_result(outcome)
        }
    }

    /// Creates the three ports and the status register of a new actor, and
    /// takes its identifier from `ids`. The actor starts as `Unstarted`, and
    /// its signal port has room for two signals.
    pub fn new(name: Option<String>, message_type: u64, ids: &mut ActorIdAllocator) -> (made: (
        ActorProperties,
        tokio::sync::mpsc::Receiver<Signal>,
        tokio::sync::mpsc::UnboundedReceiver<SupervisionEvent>,
        tokio::sync::mpsc::UnboundedReceiver<BoxedMessage>,
    ))
        ensures
            old(ids).hands_out(*final(ids), made.0.id()),
            made.0.name() == name,
            made.0.message_type() == message_type,
            made.0.starts_as(ActorStatus::Unstarted),
            made.0.ports_pair_with(SIGNAL_PORT_CAPACITY, made.1, made.2, made.3),
    {
        let (signal, signal_rx) = tokio::sync::mpsc::channel::<Signal>(SIGNAL_PORT_CAPACITY);
        let (supervision, supervisor_rx) = tokio::sync::mpsc::unbounded_channel::<
            SupervisionEvent,
        >();
        let (message, message_rx) = tokio::sync::mpsc::unbounded_channel::<BoxedMessage>();
        let id = ids.allocate();
        let status = StatusRegister::new();
        (
            ActorProperties { id, name, message_type, status, signal, supervision, message },
            signal_rx,
            supervisor_rx,
            message_rx,
        )
    }

    /// The lifecycle stage held in the status register.
    pub fn get_status(&self) -> (status: ActorStatus)
        ensures
            self.may_read_status(status),
    {
        self.status.get()
    }

    /// Stores a lifecycle stage in the status register.
    pub fn set_status(&self, status: ActorStatus)
        ensures
            self.status_stored(status),
    {
        self.status.set(status)
    }

    /// Offers a signal to the signal port without waiting. A full or closed
    /// port refuses it.
    pub fn send_signal(&self, signal: Signal) -> (result: Result<(), MessagingErr>)
        ensures
            exists|outcome: Result<(), SendFailure>| #[trigger]
                self.signal_port_answers(signal, outcome) && result == delivery_result(outcome),
            result is Err ==> result == Err::<(), MessagingErr>(MessagingErr::ChannelClosed),
    {
        let ghost offered = signal;
        let outcome = try_send(&self.signal, signal);
        assert(self.signal_port_answers(offered, outcome));
        report_delivery(outcome)
    }

    /// Puts an event on the supervision port. Only a closed port refuses it.
    pub fn send_supervisor_evt(&self, message: SupervisionEvent) -> (result: Result<
        (),
        MessagingErr,
    >)
        ensures
            exists|outcome: Result<(), SendFailure>| #[trigger]
                self.supervision_port_answers(message, outcome) && result == delivery_result(
                    outcome,
                ),
            result is Err ==> result == Err::<(), MessagingErr>(MessagingErr::ChannelClosed),
    {
        let ghost handed = message;
        let outcome = send_unbounded(&self.supervision, message);
        assert(self.supervision_port_answers(handed, outcome));
        report_delivery(outcome)
    }

    /// Puts a boxed message on the message port, unless its tag is not the one
    /// that the actor accepts: then the port is left alone and the message is
    /// rejected as `InvalidActorType`.
    pub fn send_message(&self, message: BoxedMessage) -> (result: Result<(), MessagingErr>)
        ensures
            self.sends(message, result),
            message.tag() != self.message_type() ==> result == Err::<(), MessagingErr>(
                MessagingErr::InvalidActorType,
            ),
            message.tag() == self.message_type() ==> result != Err::<(), MessagingErr>(
                MessagingErr::InvalidActorType,
            ),
    {
        if message.type_tag() != self.message_type {
            Err(MessagingErr::InvalidActorType)
        } else {
            let ghost handed = message;
            let outcome = send_unbounded(&self.message, message);
            assert(self.message_port_answers(handed, outcome));
            report_delivery(outcome)
        }
    }
}

/// A reference to an actor, which can be cloned and passed around. All clones
/// refer to the same actor.
pub struct ActorCell {
    inner: Arc<ActorProperties>,
}

impl Clone for ActorCell {
    fn clone(&self) -> (copy: ActorCell)
        ensures
            copy == *self,
    {
        ActorCell { inner: self.inner.clone() }
    }
}

impl ActorCell {
    /// The actor's identifier.
    pub closed spec fn id(self) -> ActorId {
        self.inner.id()
    }

    /// The actor's name, if it has one.
    pub closed spec fn name(self) -> Option<String> {
        self.inner.name()
    }

    /// The tag of the message type that the actor accepts.
    pub closed spec fn message_type(self) -> u64 {
        self.inner.message_type()
    }

    /// Creates a handle for a new actor, together with the receiving ends of
    /// its ports. The actor takes the upcoming identifier of `ids` and accepts
    /// messages tagged `message_type`.
    pub fn new(name: Option<String>, message_type: u64, ids: &mut ActorIdAllocator) -> (made: (
        ActorCell,
        ActorPortSet,
    ))
        ensures
            old(ids).hands_out(*final(ids), made.0.id()),
            made.0.name() == name,
            made.0.message_type() == message_type,
            made.0.starts_as(ActorStatus::Unstarted),
            made.0.ports_pair_with(SIGNAL_PORT_CAPACITY, made.1),
    {
        let (props, signal_rx, supervisor_rx, message_rx) = ActorProperties::new(
            name,
            message_type,
            ids,
        );
        (ActorCell { inner: Arc::new(props) }, ActorPortSet { signal_rx, supervisor_rx, message_rx })
    }

    /// The actor's identifier.
    pub fn get_id(&self) -> (id: ActorId)
        ensures
            id == self.id(),
    {
        self.inner.id
    }

    /// The actor's name, if it has one.
    pub fn get_name(&self) -> (name: Option<String>)
        ensures
            name == self.name(),
    {
        match &self.inner.name {
            Some(text) => Some(text.clone()),
            None => None,
        }
    }

    /// The tag of the message type that the actor accepts.
    pub fn get_message_type(&self) -> (tag: u64)
        ensures
            tag == self.message_type(),
    {
        self.inner.message_type
    }

    /// The actor's current lifecycle stage, as last stored through any clone
    /// of the handle.
    pub fn get_status(&self) -> (status: ActorStatus)
        ensures
            self.may_read_status(status),
    {
        self.inner.get_status()
    }

    /// Stores the actor's lifecycle stage, for every clone of the handle to
    /// read.
    pub fn set_status(&self, status: ActorStatus)
        ensures
            self.status_stored(status),
    {
        self.inner.set_status(status)
    }

    /// Asks the actor to stop, by sending `Exit` with the given reason. A
    /// failed send is ignored: the actor is then gone already, or has
    /// termination signals waiting.
    pub fn stop(&self, reason: Option<String>)
        ensures
            self.was_offered(Signal::Exit(reason)),
    {
        let ghost offered = Signal::Exit(reason);
        let result = self.inner.send_signal(Signal::Exit(reason));
        proof {
            let outcome = choose|outcome: Result<(), SendFailure>| #[trigger]
                self.inner.signal_port_answers(offered, outcome) && result == delivery_result(
                    outcome,
                );
            assert(self.signal_port_answers(offered, outcome));
        }
    }

    /// Asks the actor to terminate at once, by sending `Kill`. A failed send is
    /// ignored, as in [`ActorCell::stop`].
    pub fn kill(&self)
        ensures
            self.was_offered(Signal::Kill),
    {
        let result = self.inner.send_signal(Signal::Kill);
        proof {
            let outcome = choose|outcome: Result<(), SendFailure>| #[trigger]
                self.inner.signal_port_answers(Signal::Kill, outcome) && result
                    == delivery_result(outcome);
            assert(self.signal_port_answers(Signal::Kill, outcome));
        }
    }

    /// Puts an event on the actor's supervision port.
    pub fn send_supervisor_evt(&self, message: SupervisionEvent) -> (result: Result<
        (),
        MessagingErr,
    >)
        ensures
            exists|outcome: Result<(), SendFailure>| #[trigger]
                self.supervision_port_answers(message, outcome) && result == delivery_result(
                    outcome,
                ),
            result is Err ==> result == Err::<(), MessagingErr>(MessagingErr::ChannelClosed),
    {
        let ghost handed = message;
        let result = self.inner.send_supervisor_evt(message);
        proof {
            let outcome = choose|outcome: Result<(), SendFailure>| #[trigger]
                self.inner.supervision_port_answers(handed, outcome) && result
                    == delivery_result(outcome);
            assert(self.supervision_port_answers(handed, outcome));
        }
        result
    }

    /// Boxes a message under its own tag and puts it on the actor's message
    /// port. A message whose tag the actor does not accept is rejected as
    /// `InvalidActorType`; a closed port is reported as `ChannelClosed`.
    pub fn send_message<M: Message + 'static>(&self, message: M) -> (result: Result<
        (),
        MessagingErr,
    >)
        ensures
            self.sends_message(message, result),
            exists|tag: u64| #[trigger] is_tag_of(message, tag) && self.answers_tag(tag, result),
    {
        let tag = message.type_tag();
        let ghost given = message;
        let boxed = BoxedMessage::new(tag, message);
        let ghost handed = boxed;
        let result = self.send_boxed(boxed);
        proof {
            assert(is_tag_of(given, tag) && handed.carries(given) && self.sends(handed, result));
            self.lemma_sends_answers_tag(handed, result);
        }
        result
    }

    /// Puts an already boxed message on the actor's message port.
    pub fn send_boxed(&self, message: BoxedMessage) -> (result: Result<(), MessagingErr>)
        ensures
            self.sends(message, result),
            message.tag() != self.message_type() ==> result == Err::<(), MessagingErr>(
                MessagingErr::InvalidActorType,
            ),
            message.tag() == self.message_type() ==> result != Err::<(), MessagingErr>(
                MessagingErr::InvalidActorType,
            ),
    {
        let ghost handed = message;
        let result = self.inner.send_message(message);
        proof {
            if handed.tag() == self.message_type() {
                let outcome = choose|outcome: Result<(), SendFailure>| #[trigger]
                    self.inner.message_port_answers(handed, outcome) && result
                        == delivery_result(outcome);
                assert(self.message_port_answers(handed, outcome));
            }
        }
        result
    }

    /// Sends a message for which no reply is expected. The same as
    /// [`ActorCell::send_message`].
    pub fn cast<M: Message + 'static>(&self, msg: M) -> (result: Result<(), MessagingErr>)
        ensures
            self.sends_message(msg, result),
            exists|tag: u64| #[trigger] is_tag_of(msg, tag) && self.answers_tag(tag, result),
    {
        self.send_message(msg)
    }

    /// Whether the actor's status register was made with `status` in it.
    pub closed spec fn starts_as(self, status: ActorStatus) -> bool {
        self.inner.starts_as(status)
    }

    /// Whether `status` was handed to a store into the actor's status
    /// register.
    pub closed spec fn status_stored(self, status: ActorStatus) -> bool {
        self.inner.status_stored(status)
    }

    /// Whether the handle's three sending ends were made together with the
    /// receiving ends of `ports`, each pair as one channel, and the signal
    /// channel with room for `capacity` signals.
    pub closed spec fn ports_pair_with(self, capacity: usize, ports: ActorPortSet) -> bool {
        self.inner.ports_pair_with(
            capacity,
            ports.signal_rx,
            ports.supervisor_rx,
            ports.message_rx,
        )
    }

    /// Whether `outcome` is what the actor's signal port answered when it was
    /// offered `signal`.
    pub closed spec fn signal_port_answers(
        self,
        signal: Signal,
        outcome: Result<(), SendFailure>,
    ) -> bool {
        self.inner.signal_port_answers(signal, outcome)
    }

    /// Whether `signal` was offered to the actor's signal port, whatever the
    /// port answered.
    pub open spec fn was_offered(self, signal: Signal) -> bool {
        exists|outcome: Result<(), SendFailure>| #[trigger]
            self.signal_port_answers(signal, outcome)
    }

    /// Whether `outcome` is what the actor's message port answered when it
    /// was handed `message`.
    pub closed spec fn message_port_answers(
        self,
        message: BoxedMessage,
        outcome: Result<(), SendFailure>,
    ) -> bool {
        self.inner.message_port_answers(message, outcome)
    }

    /// Whether `result` is what sending the boxed `message` to this actor
    /// gives: `InvalidActorType` where the actor does not accept its tag, and
    /// otherwise the report of what the message port answered when it was
    /// handed this message.
    pub open spec fn sends(self, message: BoxedMessage, result: Result<(), MessagingErr>) -> bool {
        if message.tag() != self.message_type() {
            result == Err::<(), MessagingErr>(MessagingErr::InvalidActorType)
        } else {
            exists|outcome: Result<(), SendFailure>| #[trigger]
                self.message_port_answers(message, outcome) && result == delivery_result(outcome)
        }
    }

    /// Whether `result` is what sending `message` to this actor gives: the
    /// message is boxed under a tag that its own `type_tag` returned, and the
    /// box is sent as [`ActorCell::sends`] says.
    pub open spec fn sends_message<M: Message + 'static>(
        self,
        message: M,
        result: Result<(), MessagingErr>,
    ) -> bool {
        exists|tag: u64, boxed: BoxedMessage|
            #![trigger is_tag_of(message, tag), boxed.carries(message)]
            is_tag_of(message, tag) && boxed.tag() == tag && boxed.carries(message) && self.sends(
                boxed,
                result,
            )
    }

    /// A send answers as the tag of the box asks: no box with an accepted tag
    /// is rejected as `InvalidActorType`, and every other box is.
    pub proof fn lemma_sends_answers_tag(self, message: BoxedMessage, result: Result<
        (),
        MessagingErr,
    >)
        requires
            self.sends(message, result),
        ensures
            self.answers_tag(message.tag(), result),
    {
    }

    /// Whether `status` is a stage that the actor's status register gave when
    /// it was read.
    pub closed spec fn may_read_status(self, status: ActorStatus) -> bool {
        self.inner.may_read_status(status)
    }

    /// Whether `outcome` is what the actor's supervision port answered when
    /// it was handed `event`.
    pub closed spec fn supervision_port_answers(
        self,
        event: SupervisionEvent,
        outcome: Result<(), SendFailure>,
    ) -> bool {
        self.inner.supervision_port_answers(event, outcome)
    }

    /// Whether `result` is what sending a message with the tag `tag` to this
    /// actor may give: `InvalidActorType` where the actor does not accept the
    /// tag, and otherwise success or the refusal of the message port.
    pub open spec fn answers_tag(self, tag: u64, result: Result<(), MessagingErr>) -> bool {
        if tag != self.message_type() {
            result == Err::<(), MessagingErr>(MessagingErr::InvalidActorType)
        } else {
            result != Err::<(), MessagingErr>(MessagingErr::InvalidActorType)
        }
    }
}

} // verus!

//! Lifecycle stages of an actor and the shared register that stores them.

use std::sync::atomic::AtomicU8;
use std::sync::atomic::Ordering;
use std::sync::Arc;
use vstd::prelude::*;

verus! {

/// The lifecycle stage of an actor.
///
/// The variants are totally ordered by [`ActorStatus::rank`], in the order in
/// which they are written here.
#[derive(Debug, Clone, Copy, PartialEq, Eq, Structural)]
pub enum ActorStatus {
    /// Created, but not yet started.
    Unstarted,
    /// Starting.
    Starting,
    /// Executing, or waiting on messages.
    Running,
    /// Upgrading.
    Upgrading,
    /// Stopping.
    Stopping,
    /// Dead.
    Stopped,
}

/// The stages in which an actor still takes part in message exchange.
pub const ACTIVE_STATES: [ActorStatus; 3] = [
    ActorStatus::Starting,
    ActorStatus::Running,
    ActorStatus::Upgrading,
];

impl ActorStatus {
    /// The numeric rank of a stage: 0 for `Unstarted` up to 5 for `Stopped`.
    pub open spec fn rank(self) -> nat {
        match self {
            ActorStatus::Unstarted => 0,
            ActorStatus::Starting => 1,
            ActorStatus::Running => 2,
            ActorStatus::Upgrading => 3,
            ActorStatus::Stopping => 4,
            ActorStatus::Stopped => 5,
        }
    }

    /// The stage that a stored byte stands for. Every byte above 4 reads as
    /// `Stopped`.
    pub open spec fn decode(raw: u8) -> ActorStatus {
        if raw == 0 {
            ActorStatus::Unstarted
        } else if raw == 1 {
            ActorStatus::Starting
        } else if raw == 2 {
            ActorStatus::Running
        } else if raw == 3 {
            ActorStatus::Upgrading
        } else if raw == 4 {
            ActorStatus::Stopping
        } else {
            ActorStatus::Stopped
        }
    }

    /// Whether the stage is one of `Starting`, `Running`, `Upgrading`.
    pub open spec fn active(self) -> bool {
        1 <= self.rank() <= 3
    }

    /// Whether a termination request still has to be signalled in this stage:
    /// true up to `Upgrading`, false once the actor is stopping or stopped.
    pub open spec fn signals_on_terminate(self) -> bool {
        self.rank() <= 3
    }

    /// Whether the lifecycle allows a direct step from `self` to `next`:
    /// `Unstarted -> Starting -> Running <-> Upgrading -> Stopping -> Stopped`,
    /// and any stage but `Stopped` may go to `Stopping`.
    pub open spec fn may_step_to(self, next: ActorStatus) -> bool {
        match (self, next) {
            (ActorStatus::Unstarted, ActorStatus::Starting) => true,
            (ActorStatus::Starting, ActorStatus::Running) => true,
            (ActorStatus::Running, ActorStatus::Upgrading) => true,
            (ActorStatus::Upgrading, ActorStatus::Running) => true,
            (ActorStatus::Stopping, ActorStatus::Stopped) => true,
            (ActorStatus::Stopped, _) => false,
            (ActorStatus::Stopping, ActorStatus::Stopping) => false,
            (_, ActorStatus::Stopping) => true,
            _ => false,
        }
    }

    /// The byte under which the stage is stored.
    pub fn to_u8(self) -> (raw: u8)
        ensures
            raw == self.rank(),
            ActorStatus::decode(raw) == self,
    {
        match self {
            ActorStatus::Unstarted => 0u8,
            ActorStatus::Starting => 1u8,
            ActorStatus::Running => 2u8,
            ActorStatus::Upgrading => 3u8,
            ActorStatus::Stopping => 4u8,
            ActorStatus::Stopped => 5u8,
        }
    }

    /// Reads a stored byte back as a stage.
    pub fn from_u8(raw: u8) -> (status: ActorStatus)
        ensures
            status == ActorStatus::decode(raw),
            raw <= 5 ==> status.rank() == raw,
            raw > 5 ==> status == ActorStatus::Stopped,
    {
        match raw {
            0u8 => ActorStatus::Unstarted,
            1u8 => ActorStatus::Starting,
            2u8 => ActorStatus::Running,
            3u8 => ActorStatus::Upgrading,
            4u8 => ActorStatus::Stopping,
            _ => ActorStatus::Stopped,
        }
    }

    /// Whether the stage is one of [`ACTIVE_STATES`].
    pub fn is_active(self) -> (r: bool)
        ensures
            r == self.active(),
            r == (exists|i: int| 0 <= i < 3 && ACTIVE_STATES[i] == self),
    {
        let r = match self {
            ActorStatus::Starting | ActorStatus::Running | ActorStatus::Upgrading => true,
            _ => false,
        };
        proof {
            if r {
                let i: int = self.rank() - 1;
                assert(ACTIVE_STATES[i] == self);
            }
        }
        r
    }

    /// Whether a termination request is still signalled to an actor in this
    /// stage.
    pub fn needs_exit_signal(self) -> (r: bool)
        ensures
            r == self.signals_on_terminate(),
            r == (self != ActorStatus::Stopping && self != ActorStatus::Stopped),
    {
        self.to_u8() <= ActorStatus::Upgrading.to_u8()
    }

    /// Whether the lifecycle allows a direct step from `self` to `next`.
    pub fn can_transition_to(self, next: ActorStatus) -> (r: bool)
        ensures
            r == self.may_step_to(next),
    {
        match (self, next) {
            (ActorStatus::Unstarted, ActorStatus::Starting) => true,
            (ActorStatus::Starting, ActorStatus::Running) => true,
            (ActorStatus::Running, ActorStatus::Upgrading) => true,
            (ActorStatus::Upgrading, ActorStatus::Running) => true,
            (ActorStatus::Stopping, ActorStatus::Stopped) => true,
            (ActorStatus::Stopped, _) => false,
            (ActorStatus::Stopping, ActorStatus::Stopping) => false,
            (_, ActorStatus::Stopping) => true,
            _ => false,
        }
    }
}

/// Every stage survives being stored and read back, and the stored byte is the
/// stage's rank.
pub proof fn lemma_status_round_trip(status: ActorStatus)
    ensures
        status.rank() <= 5,
        ActorStatus::decode(status.rank() as u8) == status,
{
}

/// Two stages with the same rank are the same stage: the order by rank is
/// total and strict.
pub proof fn lemma_rank_injective(a: ActorStatus, b: ActorStatus)
    ensures
        a.rank() == b.rank() <==> a == b,
{
}

/// `Stopped` is terminal, and no step leads from `Stopping` or `Stopped` back
/// to a stage in which the actor is not yet stopping.
pub proof fn lemma_termination_is_one_way(from: ActorStatus, to: ActorStatus)
    requires
        from.may_step_to(to),
    ensures
        from != ActorStatus::Stopped,
        !from.signals_on_terminate() ==> !to.signals_on_terminate(),
        from == ActorStatus::Stopping ==> to == ActorStatus::Stopped,
{
}

/// From every stage but `Stopped` a termination request may move the actor to
/// `Stopping`, unless it is stopping already.
pub proof fn lemma_stopping_always_reachable(from: ActorStatus)
    ensures
        from.signals_on_terminate() ==> from.may_step_to(ActorStatus::Stopping),
        from.active() ==> from.signals_on_terminate(),
{
}

/// The shared register that holds an actor's lifecycle stage.
///
/// Every clone refers to the same atomic byte, so a stage stored through one
/// clone is read through all of them. Reads and writes never block, and the
/// last writer wins.
pub struct StatusRegister {
    cell: Arc<AtomicU8>,
}

impl StatusRegister {
    /// A fresh register that holds `Unstarted`.
    pub fn new() -> (r: StatusRegister)
        ensures
            r.made_holding(ActorStatus::Unstarted),
    {
        let raw = ActorStatus::Unstarted.to_u8();
        let register = StatusRegister { cell: Arc::new(AtomicU8::new(raw)) };
        assert(call_ensures(AtomicU8::new, (raw,), *register.cell));
        register
    }

    /// The stage held now. Another thread may have stored it, so the result is
    /// tied to the register only as the decoding of a byte that was loaded
    /// from it: see [`ActorStatus::from_u8`].
    pub fn get(&self) -> (status: ActorStatus)
        ensures
            self.may_read(status),
    {
        let raw = self.cell.load(Ordering::Relaxed);
        ActorStatus::from_u8(raw)
    }

    /// Stores `status`; no compare-and-swap is made.
    pub fn set(&self, status: ActorStatus)
        ensures
            self.was_stored(status),
    {
        let raw = status.to_u8();
        self.cell.store(raw, Ordering::Relaxed);
        assert(call_ensures(AtomicU8::store, (&*self.cell, raw, Ordering::Relaxed), ()));
    }

    /// Another reference to the same register.
    pub fn share(&self) -> (r: StatusRegister)
        ensures
            r == *self,
    {
        StatusRegister { cell: self.cell.clone() }
    }

    /// Whether the register was made with the byte of `status` in it.
    pub closed spec fn made_holding(self, status: ActorStatus) -> bool {
        exists|raw: u8|
            raw == status.rank() && #[trigger] call_ensures(AtomicU8::new, (raw,), *self.cell)
    }

    /// Whether the byte of `status` was handed to a store into the register.
    pub closed spec fn was_stored(self, status: ActorStatus) -> bool {
        exists|raw: u8|
            raw == status.rank() && #[trigger] call_ensures(
                AtomicU8::store,
                (&*self.cell, raw, Ordering::Relaxed),
                (),
            )
    }

    /// Whether `status` is the decoding of a byte that a load from the register
    /// returned. Which bytes a load returns depends on what was stored last,
    /// by any thread.
    pub closed spec fn may_read(self, status: ActorStatus) -> bool {
        exists|raw: u8|
            status == ActorStatus::decode(raw) && #[trigger] call_ensures(
                AtomicU8::load,
                (&*self.cell, Ordering::Relaxed),
                raw,
            )
    }
}

} // verus!

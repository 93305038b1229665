//! The texts that the library produces: an actor's description and the reason
//! attached to a timed exit.

use crate::actor_cell::ActorCell;
use vstd::prelude::*;

verus! {

/// The character of a decimal digit.
pub open spec fn digit(d: nat) -> char {
    if d == 0 {
        '0'
    } else if d == 1 {
        '1'
    } else if d == 2 {
        '2'
    } else if d == 3 {
        '3'
    } else if d == 4 {
        '4'
    } else if d == 5 {
        '5'
    } else if d == 6 {
        '6'
    } else if d == 7 {
        '7'
    } else if d == 8 {
        '8'
    } else {
        '9'
    }
}

/// A number written in decimal, without sign, padding or separators.
pub open spec fn decimal(n: nat) -> Seq<char>
    decreases n,
{
    if n < 10 {
        seq![digit(n)]
    } else {
        decimal(n / 10).push(digit(n % 10))
    }
}

/// The reason attached to an exit that was asked for `period_ms` milliseconds
/// ahead: `Exit after`, the number of milliseconds, and `ms`.
pub open spec fn exit_reason_text(period_ms: nat) -> Seq<char> {
    "Exit after "@ + decimal(period_ms) + "ms"@
}

/// How an actor with a name is described.
pub open spec fn named_actor_text(name: Seq<char>, id: nat) -> Seq<char> {
    "Actor '"@ + name + "' (id: "@ + decimal(id) + ")"@
}

/// How an actor without a name is described.
pub open spec fn unnamed_actor_text(id: nat) -> Seq<char> {
    "Actor with id: "@ + decimal(id)
}

/// Formats with `format!`, which writes an unsigned integer in decimal and
/// everything else of the pattern as it stands.
#[verifier::external_body]
fn format_exit_reason(period_ms: u128) -> (text: String)
    ensures
        text@ == exit_reason_text(period_ms as nat),
{
    format!("Exit after {}ms", period_ms)
}

/// Formats with `format!`, which writes the name as it is and the identifier
/// in decimal.
#[verifier::external_body]
fn format_named_actor(name: &String, id: u64) -> (text: String)
    ensures
        text@ == named_actor_text(name@, id as nat),
{
    format!("Actor '{}' (id: {})", name, id)
}

/// Formats with `format!`, which writes the identifier in decimal.
#[verifier::external_body]
fn format_unnamed_actor(id: u64) -> (text: String)
    ensures
        text@ == unnamed_actor_text(id as nat),
{
    format!("Actor with id: {}", id)
}

/// The reason attached to an exit that was asked for `period_ms` milliseconds
/// ahead.
pub fn exit_reason(period_ms: u128) -> (text: String)
    ensures
        text@ == exit_reason_text(period_ms as nat),
{
    format_exit_reason(period_ms)
}

impl ActorCell {
    /// What [`ActorCell::describe`] returns.
    pub open spec fn description(self) -> Seq<char> {
        match self.name() {
            Some(name) => named_actor_text(name@, self.id() as nat),
            None => unnamed_actor_text(self.id() as nat),
        }
    }

    /// A description of the actor for logs and messages: its name, if it has
    /// one, and its identifier.
    pub fn describe(&self) -> (text: String)
        ensures
            text@ == self.description(),
    {
        match self.get_name() {
            Some(name) => format_named_actor(&name, self.get_id()),
            None => format_unnamed_actor(self.get_id()),
        }
    }
}

} // verus!

//! What the daemon's port is doing.
//!
//! "Is something listening?" is not a yes/no question: a port whose owning
//! process died while a copy of its socket lives on in a child is taken
//! (it cannot be bound) yet refuses connections. Only the two observations
//! together tell the three states apart.

use vstd::prelude::*;

verus! {

/// What a port is doing.
#[derive(Debug, Clone, Copy, PartialEq, Eq, Structural)]
pub enum PortState {
    /// Nothing holds the address; a daemon can bind it.
    Free,
    /// Bound, and completing handshakes: a real server is accepting.
    Serving,
    /// Bound, but refusing connections: the address is taken so binding
    /// fails, yet nothing answers.
    Blocked,
}

/// The state a port is in, from whether it could be bound and whether a
/// connection to it completed.
pub open spec fn port_state(bindable: bool, connectable: bool) -> PortState {
    if bindable {
        PortState::Free
    } else if connectable {
        PortState::Serving
    } else {
        PortState::Blocked
    }
}

/// Classifies a port from the two facts that can be observed about it.
pub fn classify(bindable: bool, connectable: bool) -> (s: PortState)
    ensures
        s == port_state(bindable, connectable),
{
    if bindable {
        PortState::Free
    } else if connectable {
        PortState::Serving
    } else {
        PortState::Blocked
    }
}

/// A port that can be bound is free whatever a connection attempt says, and
/// only a port that is both taken and silent is blocked.
pub proof fn lemma_blocked_iff_taken_and_silent(bindable: bool, connectable: bool)
    ensures
        bindable ==> port_state(bindable, connectable) == PortState::Free,
        port_state(bindable, connectable) == PortState::Blocked <==> (!bindable && !connectable),
{
}

/// What was last observed while freeing a blocked port by killing the
/// processes of orphaned tasks, one pid at a time.
#[derive(Debug, Clone, Copy, PartialEq, Eq, Structural)]
pub enum ReclaimEvent {
    /// The port was probed: before the first pid, and after each kill.
    PortProbed(PortState),
    /// A recorded pid was checked: whether it is still the task's process.
    PidChecked { ours: bool },
    /// A kill of the pid's process tree finished, or failed.
    KillFinished { ok: bool },
}

/// What to do next while freeing a port.
#[derive(Debug, Clone, Copy, PartialEq, Eq, Structural)]
pub enum ReclaimAction {
    /// Stop: the port is no longer blocked (or never was).
    Done,
    /// Move on to the next recorded pid (or start with the first).
    NextPid,
    /// Kill the checked pid's process tree.
    Kill,
    /// Record the kill, wait a moment, and probe the port again.
    RecordAndProbe,
}

/// The next step: only a blocked port is worked on, only a pid that is still
/// the task's own is killed, a failed kill moves on to the next pid, and
/// after a kill the port is probed again, which ends the work once it is no
/// longer blocked.
pub open spec fn reclaim_action(e: ReclaimEvent) -> ReclaimAction {
    match e {
        ReclaimEvent::PortProbed(s) => if s == PortState::Blocked {
            ReclaimAction::NextPid
        } else {
            ReclaimAction::Done
        },
        ReclaimEvent::PidChecked { ours } => if ours {
            ReclaimAction::Kill
        } else {
            ReclaimAction::NextPid
        },
        ReclaimEvent::KillFinished { ok } => if ok {
            ReclaimAction::RecordAndProbe
        } else {
            ReclaimAction::NextPid
        },
    }
}

/// Decides the next step of freeing a blocked port.
pub fn reclaim_next(e: ReclaimEvent) -> (a: ReclaimAction)
    ensures
        a == reclaim_action(e),
{
    match e {
        ReclaimEvent::PortProbed(s) => match s {
            PortState::Blocked => ReclaimAction::NextPid,
            _ => ReclaimAction::Done,
        },
        ReclaimEvent::PidChecked { ours } => if ours {
            ReclaimAction::Kill
        } else {
            ReclaimAction::NextPid
        },
        ReclaimEvent::KillFinished { ok } => if ok {
            ReclaimAction::RecordAndProbe
        } else {
            ReclaimAction::NextPid
        },
    }
}

} // verus!

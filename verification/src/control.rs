//! The cancellation state machine: a shared flag that starts out running, is
//! stopped exactly once by the operator's interrupt, and is polled by every
//! worker at the top of every iteration.

use vstd::prelude::*;

verus! {

/// The two states of the cancellation controller. `Stopping` is terminal.
#[derive(Clone, Copy, PartialEq, Eq, Structural, Debug)]
pub enum ControllerState {
    /// The search is running.
    Running,
    /// Cancellation has been triggered; workers wind down.
    Stopping,
}

/// The cancellation transition: the next state, and whether the one-time
/// operator acknowledgment is owed.
pub open spec fn triggered(s: ControllerState) -> (ControllerState, bool) {
    (ControllerState::Stopping, s is Running)
}

impl ControllerState {
    /// A fresh controller, running.
    pub fn new() -> (r: ControllerState)
        ensures
            r is Running,
    {
        ControllerState::Running
    }

    /// Applies the cancellation transition and returns whether the operator
    /// acknowledgment is owed: exactly once, on the first trigger.
    pub fn trigger(&mut self) -> (notify: bool)
        ensures
            *final(self) == triggered(*old(self)).0,
            notify == triggered(*old(self)).1,
    {
        let notify = match self {
            ControllerState::Running => true,
            ControllerState::Stopping => false,
        };
        *self = ControllerState::Stopping;
        notify
    }

    /// Whether a worker should run another iteration.
    pub fn should_continue(&self) -> (r: bool)
        ensures
            r == (*self is Running),
    {
        match self {
            ControllerState::Running => true,
            ControllerState::Stopping => false,
        }
    }
}

/// Cancellation is terminal and idempotent: any trigger leaves the controller
/// stopping, a worker never continues past a stopped controller, and a second
/// trigger neither changes the state nor owes a second acknowledgment.
pub proof fn lemma_trigger_idempotent(s: ControllerState)
    ensures
        triggered(s).0 is Stopping,
        !(triggered(s).0 is Running),
        triggered(triggered(s).0).0 == triggered(s).0,
        triggered(triggered(s).0).1 == false,
{
}

} // verus!

//! The session supervisor: after every session, whatever ended it, a pause
//! and then a new session, without end.

use crate::session::CloseReason;
use vstd::prelude::*;

verus! {

/// Seconds between the end of a session and the start of the next.
pub const BACKOFF_SECS: u64 = 1;

/// Where the supervisor stands.
#[derive(Clone, Copy, Debug, PartialEq, Eq, Structural)]
pub enum SupervisorState {
    /// A session is running.
    Running,
    /// The last session has ended; the pause before the next is running.
    BackingOff,
}

/// What the supervisor is told.
#[derive(Clone, Copy, Debug, PartialEq, Eq, Structural)]
pub enum SupervisorEvent {
    /// The running session ended.
    SessionExited(CloseReason),
    /// The pause is over.
    BackoffElapsed,
}

/// What the caller has to do for the supervisor.
#[derive(Clone, Copy, Debug, PartialEq, Eq, Structural)]
pub enum SupervisorAction {
    /// Nothing.
    Idle,
    /// Wait this many seconds, then report that the pause is over.
    Sleep(u64),
    /// Start a new session.
    StartSession,
}

/// The retry loop around the sessions.
#[derive(Clone, Copy, Debug, PartialEq, Eq, Structural)]
pub struct Supervisor {
    pub state: SupervisorState,
}

/// The supervisor's state after an event. Every exit, whatever its reason,
/// leads to the pause, and the end of the pause to a running session.
pub open spec fn supervisor_next(state: SupervisorState, e: SupervisorEvent) -> SupervisorState {
    match (state, e) {
        (SupervisorState::Running, SupervisorEvent::SessionExited(_)) => SupervisorState::BackingOff,
        (SupervisorState::BackingOff, SupervisorEvent::BackoffElapsed) => SupervisorState::Running,
        _ => state,
    }
}

/// The action that an event calls for. An event that the state does not
/// expect calls for none.
pub open spec fn supervisor_action(state: SupervisorState, e: SupervisorEvent) -> SupervisorAction {
    match (state, e) {
        (SupervisorState::Running, SupervisorEvent::SessionExited(_)) => SupervisorAction::Sleep(
            BACKOFF_SECS,
        ),
        (SupervisorState::BackingOff, SupervisorEvent::BackoffElapsed) => {
            SupervisorAction::StartSession
        },
        _ => SupervisorAction::Idle,
    }
}

impl Supervisor {
    /// The supervisor at the start of its first session.
    pub fn new() -> (supervisor: Supervisor)
        ensures
            supervisor.state == SupervisorState::Running,
    {
        Supervisor { state: SupervisorState::Running }
    }

    /// Takes one event: moves to the next state and returns the action that
    /// the caller has to perform.
    pub fn step(&mut self, event: SupervisorEvent) -> (action: SupervisorAction)
        ensures
            final(self).state == supervisor_next(old(self).state, event),
            action == supervisor_action(old(self).state, event),
    {
        match (self.state, event) {
            (SupervisorState::Running, SupervisorEvent::SessionExited(_)) => {
                self.state = SupervisorState::BackingOff;
                SupervisorAction::Sleep(BACKOFF_SECS)
            },
            (SupervisorState::BackingOff, SupervisorEvent::BackoffElapsed) => {
                self.state = SupervisorState::Running;
                SupervisorAction::StartSession
            },
            _ => SupervisorAction::Idle,
        }
    }
}

} // verus!

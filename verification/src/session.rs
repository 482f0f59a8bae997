use vstd::prelude::*;
use crate::error::VegaFusionError;

verus! {

/// Where an interactive session stands. The outside work of each
/// phase (evaluating, sending, observing) is the driver's; the legal
/// order of phases is decided here.
#[derive(Debug, Clone, Copy, PartialEq, Eq, Structural)]
pub enum SessionState {
    /// The server evaluates the server-to-client set and sends the
    /// initial values; the client renders.
    Initial,
    /// The client observes the client-to-server variables.
    Watching,
    /// The client has sent changed values; the server applies the
    /// overrides and re-evaluates the now-stale nodes.
    Updating,
    /// The server sends the recomputed values back.
    Pushing,
    /// The session is over; nothing follows.
    Ended,
}

/// What the session's driver reports back after its outside work.
#[derive(Debug, Clone, Copy, PartialEq, Eq, Structural)]
pub enum SessionEvent {
    InitialValuesSent,
    WatchObserved,
    UpdatesApplied,
    ValuesPushed,
    SessionEnd,
}

/// The next state after an event, if the event is legal in the
/// current state.
pub open spec fn spec_session_step(s: SessionState, e: SessionEvent) -> Option<SessionState> {
    match (s, e) {
        (SessionState::Initial, SessionEvent::InitialValuesSent) => Some(SessionState::Watching),
        (SessionState::Watching, SessionEvent::WatchObserved) => Some(SessionState::Updating),
        (SessionState::Updating, SessionEvent::UpdatesApplied) => Some(SessionState::Pushing),
        (SessionState::Pushing, SessionEvent::ValuesPushed) => Some(SessionState::Watching),
        (SessionState::Initial, SessionEvent::SessionEnd) => Some(SessionState::Ended),
        (SessionState::Watching, SessionEvent::SessionEnd) => Some(SessionState::Ended),
        (SessionState::Updating, SessionEvent::SessionEnd) => Some(SessionState::Ended),
        (SessionState::Pushing, SessionEvent::SessionEnd) => Some(SessionState::Ended),
        _ => None,
    }
}

/// Step the session: exactly the transitions of the interactive
/// loop — initial load, then watch, update and push in a cycle, with
/// the end reachable from every live state and final. An event out
/// of order is an error and changes nothing.
pub fn session_step(s: SessionState, e: SessionEvent) -> (r: Result<
    SessionState,
    VegaFusionError,
>)
    ensures
        match spec_session_step(s, e) {
            Some(next) => r == Ok::<SessionState, VegaFusionError>(next),
            None => r is Err && r->Err_0 is Internal,
        },
{
    match (s, e) {
        (SessionState::Initial, SessionEvent::InitialValuesSent) => Ok(SessionState::Watching),
        (SessionState::Watching, SessionEvent::WatchObserved) => Ok(SessionState::Updating),
        (SessionState::Updating, SessionEvent::UpdatesApplied) => Ok(SessionState::Pushing),
        (SessionState::Pushing, SessionEvent::ValuesPushed) => Ok(SessionState::Watching),
        (SessionState::Initial, SessionEvent::SessionEnd) => Ok(SessionState::Ended),
        (SessionState::Watching, SessionEvent::SessionEnd) => Ok(SessionState::Ended),
        (SessionState::Updating, SessionEvent::SessionEnd) => Ok(SessionState::Ended),
        (SessionState::Pushing, SessionEvent::SessionEnd) => Ok(SessionState::Ended),
        _ => Err(VegaFusionError::internal("Event out of order for the session state")),
    }
}

/// The ended state is terminal: no event leads anywhere from it.
pub proof fn lemma_ended_is_terminal(e: SessionEvent)
    ensures
        spec_session_step(SessionState::Ended, e) is None,
{
}

} // verus!

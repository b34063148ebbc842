//! A recording session: idle, recording, paused, and stopped for good.
//!
//! The session is a state machine. What happens around it, such as opening
//! the modem, writing the log and checking the disk, is done elsewhere and
//! comes in as events; the machine says what state follows.

use vstd::prelude::*;

verus! {

/// Why a session stopped.
#[derive(Clone, Copy, Debug, PartialEq, Eq, Structural)]
pub enum StopReason {
    /// Free disk space fell under what recording needs to continue.
    DiskFull,
    /// The diagnostic transport failed.
    DiagError,
    /// The user stopped the session.
    UserStop,
}

/// The state of a session.
#[derive(Clone, Copy, Debug, PartialEq, Eq, Structural)]
pub enum SessionState {
    Idle,
    Recording,
    Paused,
    /// Stopped, for good.
    Stopped(StopReason),
}

/// How much free disk space recording needs, in megabytes.
#[derive(Clone, Copy, Debug, PartialEq, Eq, Structural)]
pub struct StorageLimits {
    pub min_space_to_start_recording_mb: u64,
    pub min_space_to_continue_recording_mb: u64,
}

/// What can happen to a session.
#[derive(Clone, Copy, Debug, PartialEq, Eq, Structural)]
pub enum SessionEvent {
    /// A request to start recording, with the free disk space at that time.
    Start { free_mb: u64 },
    Pause,
    Resume,
    /// A periodic check of the free disk space.
    DiskCheck { free_mb: u64 },
    /// The diagnostic transport failed.
    DiagError,
    /// A request to stop.
    Stop,
}

/// Why an event changed nothing.
#[derive(Clone, Copy, Debug, PartialEq, Eq, Structural)]
pub enum SessionError {
    /// There is less free disk space than starting needs.
    InsufficientStorage,
    /// The event does not apply in the state the session is in.
    NotApplicable,
}

/// Whether a session is recording or paused.
pub open spec fn is_active(state: SessionState) -> bool {
    state is Recording || state is Paused
}

/// The state that follows an event, or the reason why the event changes
/// nothing.
///
/// An idle session starts if there is enough free disk space. A recording
/// session can be paused and a paused one resumed. A session that is
/// recording or paused stops when a disk check finds too little space, when
/// the transport fails, or when it is told to. A stopped session stays
/// stopped.
pub open spec fn next_state(state: SessionState, event: SessionEvent, limits: StorageLimits)
    -> Result<SessionState, SessionError> {
    match event {
        SessionEvent::Start { free_mb } => if !(state is Idle) {
            Err(SessionError::NotApplicable)
        } else if free_mb >= limits.min_space_to_start_recording_mb {
            Ok(SessionState::Recording)
        } else {
            Err(SessionError::InsufficientStorage)
        },
        SessionEvent::Pause => if state is Recording {
            Ok(SessionState::Paused)
        } else {
            Err(SessionError::NotApplicable)
        },
        SessionEvent::Resume => if state is Paused {
            Ok(SessionState::Recording)
        } else {
            Err(SessionError::NotApplicable)
        },
        SessionEvent::DiskCheck { free_mb } => if !is_active(state) {
            Err(SessionError::NotApplicable)
        } else if free_mb < limits.min_space_to_continue_recording_mb {
            Ok(SessionState::Stopped(StopReason::DiskFull))
        } else {
            Ok(state)
        },
        SessionEvent::DiagError => if is_active(state) {
            Ok(SessionState::Stopped(StopReason::DiagError))
        } else {
            Err(SessionError::NotApplicable)
        },
        SessionEvent::Stop => if is_active(state) {
            Ok(SessionState::Stopped(StopReason::UserStop))
        } else {
            Err(SessionError::NotApplicable)
        },
    }
}

/// The state after an event: the one that follows it, or the same state if
/// the event changes nothing.
pub open spec fn state_after(state: SessionState, event: SessionEvent, limits: StorageLimits)
    -> SessionState {
    match next_state(state, event, limits) {
        Ok(next) => next,
        Err(_) => state,
    }
}

/// The state after a run of events.
pub open spec fn state_after_all(
    state: SessionState,
    events: Seq<SessionEvent>,
    limits: StorageLimits,
) -> SessionState
    decreases events.len(),
{
    if events.len() == 0 {
        state
    } else {
        state_after(state_after_all(state, events.drop_last(), limits), events.last(), limits)
    }
}

/// Says what state follows an event, or why the event changes nothing.
pub fn step(state: SessionState, event: SessionEvent, limits: &StorageLimits) -> (next: Result<
    SessionState,
    SessionError,
>)
    ensures
        next == next_state(state, event, *limits),
{
    let active = match state {
        SessionState::Recording | SessionState::Paused => true,
        _ => false,
    };
    match event {
        SessionEvent::Start { free_mb } => match state {
            SessionState::Idle => if free_mb >= limits.min_space_to_start_recording_mb {
                Ok(SessionState::Recording)
            } else {
                Err(SessionError::InsufficientStorage)
            },
            _ => Err(SessionError::NotApplicable),
        },
        SessionEvent::Pause => match state {
            SessionState::Recording => Ok(SessionState::Paused),
            _ => Err(SessionError::NotApplicable),
        },
        SessionEvent::Resume => match state {
            SessionState::Paused => Ok(SessionState::Recording),
            _ => Err(SessionError::NotApplicable),
        },
        SessionEvent::DiskCheck { free_mb } => if !active {
            Err(SessionError::NotApplicable)
        } else if free_mb < limits.min_space_to_continue_recording_mb {
            Ok(SessionState::Stopped(StopReason::DiskFull))
        } else {
            Ok(state)
        },
        SessionEvent::DiagError => if active {
            Ok(SessionState::Stopped(StopReason::DiagError))
        } else {
            Err(SessionError::NotApplicable)
        },
        SessionEvent::Stop => if active {
            Ok(SessionState::Stopped(StopReason::UserStop))
        } else {
            Err(SessionError::NotApplicable)
        },
    }
}

/// A stopped session is stopped for good: whatever happens afterwards, it
/// stays stopped, for the reason it stopped for.
pub proof fn lemma_stopped_is_terminal(
    reason: StopReason,
    events: Seq<SessionEvent>,
    limits: StorageLimits,
)
    ensures
        state_after_all(SessionState::Stopped(reason), events, limits) == SessionState::Stopped(
            reason,
        ),
    decreases events.len(),
{
    if events.len() > 0 {
        lemma_stopped_is_terminal(reason, events.drop_last(), limits);
    }
}

/// A session never goes back to idle: once it has left that state, no run
/// of events brings it back.
pub proof fn lemma_never_idle_again(
    state: SessionState,
    events: Seq<SessionEvent>,
    limits: StorageLimits,
)
    requires
        !(state is Idle),
    ensures
        !(state_after_all(state, events, limits) is Idle),
    decreases events.len(),
{
    if events.len() > 0 {
        lemma_never_idle_again(state, events.drop_last(), limits);
    }
}

} // verus!

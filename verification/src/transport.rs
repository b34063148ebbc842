//! The diagnostic transport: opening the modem's diagnostic device, asking
//! it for the log items that the decoders know, and reading its stream.
//!
//! The transport is a state machine. Opening, writing and reading are done
//! elsewhere and come in as events; the machine says what follows.

use vstd::prelude::*;

verus! {

/// The most bytes that are read from the device at once.
pub const MAX_READ: usize = 16 * 1024;

/// How long the acknowledgement of the start request is waited for, in
/// milliseconds.
pub const ACK_TIMEOUT_MS: u64 = 2000;

/// How many times the log mask request is sent again after a framing error.
pub const LOG_MASK_RETRIES: u8 = 3;

/// Why the transport failed.
#[derive(Clone, Copy, Debug, PartialEq, Eq, Structural)]
pub enum TransportError {
    /// Another process holds the device.
    DeviceBusy,
    /// The modem did not answer the setup as it should.
    DiagProtocolError,
    /// The device went away.
    DeviceGone,
}

/// Where the setup of the transport stands.
#[derive(Clone, Copy, Debug, PartialEq, Eq, Structural)]
pub enum SetupState {
    /// The device is being opened.
    Opening,
    /// The log mask request was sent; `retries` of them were sent again.
    SettingLogMask { retries: u8 },
    /// The start request with this identifier was sent.
    AwaitingAck { request_id: u32 },
    /// The setup is done and the stream can be read.
    Streaming,
    /// The setup failed, for good.
    Failed(TransportError),
}

/// What can happen during the setup.
#[derive(Clone, Copy, Debug, PartialEq, Eq, Structural)]
pub enum SetupEvent {
    /// The device was opened.
    Opened,
    /// The device is held by another process.
    Busy,
    /// The modem accepted the log mask; the start request goes out with
    /// this identifier.
    LogMaskAccepted { request_id: u32 },
    /// The answer to the log mask request was badly framed.
    FramingError,
    /// An acknowledgement arrived for the request with this identifier.
    Ack { request_id: u32 },
    /// `waited_ms` went by without an acknowledgement.
    Waited { waited_ms: u64 },
}

/// The state that follows an event of the setup.
///
/// A busy device fails the setup. The log mask request is sent again after
/// a framing error, up to the number of retries, and fails the setup after
/// that. The setup is done when the acknowledgement with the identifier of
/// the start request arrives, and fails when the time to wait for it has
/// run out. An event that does not belong to the state changes nothing.
pub open spec fn setup_after(state: SetupState, event: SetupEvent) -> SetupState {
    match (state, event) {
        (SetupState::Opening, SetupEvent::Opened) => SetupState::SettingLogMask { retries: 0 },
        (SetupState::Opening, SetupEvent::Busy) => SetupState::Failed(TransportError::DeviceBusy),
        (SetupState::SettingLogMask { .. }, SetupEvent::LogMaskAccepted { request_id }) => {
            SetupState::AwaitingAck { request_id }
        },
        (SetupState::SettingLogMask { retries }, SetupEvent::FramingError) => if retries
            < LOG_MASK_RETRIES {
            SetupState::SettingLogMask { retries: (retries + 1) as u8 }
        } else {
            SetupState::Failed(TransportError::DiagProtocolError)
        },
        (SetupState::AwaitingAck { request_id }, SetupEvent::Ack { request_id: acked }) => if acked
            == request_id {
            SetupState::Streaming
        } else {
            state
        },
        (SetupState::AwaitingAck { .. }, SetupEvent::Waited { waited_ms }) => if waited_ms
            >= ACK_TIMEOUT_MS {
            SetupState::Failed(TransportError::DiagProtocolError)
        } else {
            state
        },
        _ => state,
    }
}

/// The state after a run of events of the setup.
pub open spec fn setup_after_all(state: SetupState, events: Seq<SetupEvent>) -> SetupState
    decreases events.len(),
{
    if events.len() == 0 {
        state
    } else {
        setup_after(setup_after_all(state, events.drop_last()), events.last())
    }
}

/// Says what state follows an event of the setup.
pub fn on_setup_event(state: SetupState, event: SetupEvent) -> (next: SetupState)
    ensures
        next == setup_after(state, event),
{
    match state {
        SetupState::Opening => match event {
            SetupEvent::Opened => SetupState::SettingLogMask { retries: 0 },
            SetupEvent::Busy => SetupState::Failed(TransportError::DeviceBusy),
            _ => state,
        },
        SetupState::SettingLogMask { retries } => match event {
            SetupEvent::LogMaskAccepted { request_id } => SetupState::AwaitingAck { request_id },
            SetupEvent::FramingError => {
                if retries < LOG_MASK_RETRIES {
                    SetupState::SettingLogMask { retries: retries + 1 }
                } else {
                    SetupState::Failed(TransportError::DiagProtocolError)
                }
            },
            _ => state,
        },
        SetupState::AwaitingAck { request_id } => match event {
            SetupEvent::Ack { request_id: acked } => {
                if acked == request_id {
                    SetupState::Streaming
                } else {
                    state
                }
            },
            SetupEvent::Waited { waited_ms } => {
                if waited_ms >= ACK_TIMEOUT_MS {
                    SetupState::Failed(TransportError::DiagProtocolError)
                } else {
                    state
                }
            },
            _ => state,
        },
        _ => state,
    }
}

/// How a read from the device ended.
#[derive(Clone, Copy, Debug, PartialEq, Eq, Structural)]
pub enum ReadOutcome {
    /// Bytes were read, as many as this; they may be fewer than were asked
    /// for.
    Data { len: usize },
    /// The read was interrupted.
    Transient,
    /// The device reported an input/output error or is not there any more.
    Gone,
}

/// What to do after a read.
#[derive(Clone, Copy, Debug, PartialEq, Eq, Structural)]
pub enum ReadStep {
    /// Hand the bytes to the framer.
    Feed { len: usize },
    /// Read again.
    Retry,
    /// End the stream, with this error.
    Stop(TransportError),
}

/// What to do after a read: bytes go to the framer, a transient error is
/// answered by reading again, and a device that is gone ends the stream.
pub open spec fn read_step(outcome: ReadOutcome) -> ReadStep {
    match outcome {
        ReadOutcome::Data { len } => ReadStep::Feed { len },
        ReadOutcome::Transient => ReadStep::Retry,
        ReadOutcome::Gone => ReadStep::Stop(TransportError::DeviceGone),
    }
}

/// Says what to do after a read.
pub fn after_read(outcome: ReadOutcome) -> (step: ReadStep)
    ensures
        step == read_step(outcome),
{
    match outcome {
        ReadOutcome::Data { len } => ReadStep::Feed { len },
        ReadOutcome::Transient => ReadStep::Retry,
        ReadOutcome::Gone => ReadStep::Stop(TransportError::DeviceGone),
    }
}

/// A setup that has failed stays failed, and one that is done stays done.
pub proof fn lemma_setup_ends(state: SetupState, events: Seq<SetupEvent>)
    requires
        state is Failed || state is Streaming,
    ensures
        setup_after_all(state, events) == state,
    decreases events.len(),
{
    if events.len() > 0 {
        lemma_setup_ends(state, events.drop_last());
    }
}

/// The log mask request is sent at most once and three times again:
/// whatever else happens, the fourth framing error in a row fails the setup.
pub proof fn lemma_log_mask_retries_are_bounded(retries: u8)
    ensures
        setup_after(
            setup_after(
                setup_after(
                    setup_after(SetupState::SettingLogMask { retries: 0 }, SetupEvent::FramingError),
                    SetupEvent::FramingError,
                ),
                SetupEvent::FramingError,
            ),
            SetupEvent::FramingError,
        ) == SetupState::Failed(TransportError::DiagProtocolError),
        retries >= LOG_MASK_RETRIES ==> setup_after(
            SetupState::SettingLogMask { retries },
            SetupEvent::FramingError,
        ) == SetupState::Failed(TransportError::DiagProtocolError),
{
}

} // verus!

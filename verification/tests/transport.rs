use rayhunter::transport::{
    after_read, on_setup_event, ReadOutcome, ReadStep, SetupEvent, SetupState, TransportError,
    ACK_TIMEOUT_MS, LOG_MASK_RETRIES, MAX_READ,
};

const ALL_EVENTS: [SetupEvent; 8] = [
    SetupEvent::Opened,
    SetupEvent::Busy,
    SetupEvent::LogMaskAccepted { request_id: 7 },
    SetupEvent::FramingError,
    SetupEvent::Ack { request_id: 7 },
    SetupEvent::Ack { request_id: 8 },
    SetupEvent::Waited { waited_ms: 1 },
    SetupEvent::Waited { waited_ms: 5000 },
];

#[test]
fn limits() {
    assert_eq!(MAX_READ, 16384);
    assert_eq!(ACK_TIMEOUT_MS, 2000);
    assert_eq!(LOG_MASK_RETRIES, 3);
}

#[test]
fn setup_goes_from_opening_to_streaming() {
    let mut state = SetupState::Opening;
    state = on_setup_event(state, SetupEvent::Opened);
    assert_eq!(state, SetupState::SettingLogMask { retries: 0 });
    state = on_setup_event(state, SetupEvent::LogMaskAccepted { request_id: 42 });
    assert_eq!(state, SetupState::AwaitingAck { request_id: 42 });
    state = on_setup_event(state, SetupEvent::Waited { waited_ms: 1999 });
    assert_eq!(state, SetupState::AwaitingAck { request_id: 42 });
    state = on_setup_event(state, SetupEvent::Ack { request_id: 41 });
    assert_eq!(state, SetupState::AwaitingAck { request_id: 42 });
    state = on_setup_event(state, SetupEvent::Ack { request_id: 42 });
    assert_eq!(state, SetupState::Streaming);
}

#[test]
fn busy_device_fails_the_setup() {
    assert_eq!(
        on_setup_event(SetupState::Opening, SetupEvent::Busy),
        SetupState::Failed(TransportError::DeviceBusy)
    );
}

#[test]
fn log_mask_is_sent_again_three_times() {
    let mut state = SetupState::SettingLogMask { retries: 0 };
    for retries in 1..=3u8 {
        state = on_setup_event(state, SetupEvent::FramingError);
        assert_eq!(state, SetupState::SettingLogMask { retries });
    }
    assert!(matches!(
        on_setup_event(state, SetupEvent::LogMaskAccepted { request_id: 1 }),
        SetupState::AwaitingAck { request_id: 1 }
    ));
    state = on_setup_event(state, SetupEvent::FramingError);
    assert_eq!(state, SetupState::Failed(TransportError::DiagProtocolError));
    assert_eq!(
        on_setup_event(SetupState::SettingLogMask { retries: 200 }, SetupEvent::FramingError),
        SetupState::Failed(TransportError::DiagProtocolError)
    );
}

#[test]
fn missing_acknowledgement_fails_after_two_seconds() {
    let waiting = SetupState::AwaitingAck { request_id: 3 };
    assert_eq!(on_setup_event(waiting, SetupEvent::Waited { waited_ms: 0 }), waiting);
    assert_eq!(on_setup_event(waiting, SetupEvent::Waited { waited_ms: 1999 }), waiting);
    assert_eq!(
        on_setup_event(waiting, SetupEvent::Waited { waited_ms: 2000 }),
        SetupState::Failed(TransportError::DiagProtocolError)
    );
}

#[test]
fn ended_setups_stay_as_they_are() {
    let ended = [
        SetupState::Streaming,
        SetupState::Failed(TransportError::DeviceBusy),
        SetupState::Failed(TransportError::DiagProtocolError),
        SetupState::Failed(TransportError::DeviceGone),
    ];
    for state in ended {
        for event in ALL_EVENTS {
            assert_eq!(on_setup_event(state, event), state);
        }
    }
}

#[test]
fn events_of_other_states_change_nothing() {
    for event in ALL_EVENTS {
        if !matches!(event, SetupEvent::Opened | SetupEvent::Busy) {
            assert_eq!(on_setup_event(SetupState::Opening, event), SetupState::Opening);
        }
        if !matches!(event, SetupEvent::LogMaskAccepted { .. } | SetupEvent::FramingError) {
            let state = SetupState::SettingLogMask { retries: 1 };
            assert_eq!(on_setup_event(state, event), state);
        }
    }
    let waiting = SetupState::AwaitingAck { request_id: 7 };
    for event in [SetupEvent::Opened, SetupEvent::Busy, SetupEvent::FramingError] {
        assert_eq!(on_setup_event(waiting, event), waiting);
    }
}

#[test]
fn reads_feed_retry_or_stop() {
    assert_eq!(after_read(ReadOutcome::Data { len: 100 }), ReadStep::Feed { len: 100 });
    assert_eq!(after_read(ReadOutcome::Data { len: 0 }), ReadStep::Feed { len: 0 });
    assert_eq!(after_read(ReadOutcome::Transient), ReadStep::Retry);
    assert_eq!(after_read(ReadOutcome::Gone), ReadStep::Stop(TransportError::DeviceGone));
}

use bitcoincore_zmq::{
    after_monitor_poll, decode_received, wait_handshake, FiniteMessageStream, FiniteStep,
    HandshakeGate, Hash256, MergeStep, Message, MessageError, SleepReadyState, SocketEvent,
    SocketMessage,
};

fn event_frame(code: u16, value: u32) -> Vec<u8> {
    let mut f = code.to_le_bytes().to_vec();
    f.extend_from_slice(&value.to_le_bytes());
    f
}

#[test]
fn event_frames_decode() {
    assert_eq!(
        SocketEvent::parse_frame(&event_frame(4096, 0)),
        Some(SocketEvent::HandshakeSucceeded)
    );
    assert_eq!(
        SocketEvent::parse_frame(&event_frame(512, 7)),
        Some(SocketEvent::Disconnected { fd: 7 })
    );
    assert_eq!(
        SocketEvent::parse_frame(&event_frame(2, 0)),
        Some(SocketEvent::ConnectDelayed)
    );
    assert_eq!(
        SocketEvent::parse_frame(&event_frame(3, 9)),
        Some(SocketEvent::Unknown { event: 3, data: 9 })
    );
    assert_eq!(SocketEvent::parse_frame(&[0, 16, 0]), None);
    let addr = b"tcp://127.0.0.1:28332".to_vec();
    let frame = event_frame(1, 12);
    assert_eq!(
        SocketEvent::parse_from(&[&frame, &addr]),
        Some(SocketEvent::Connected { fd: 12 })
    );
    assert_eq!(SocketEvent::parse_from(&[]), None);
}

#[test]
fn gate_opens_after_n_handshakes() {
    let events = [
        SocketEvent::ConnectDelayed,
        SocketEvent::HandshakeSucceeded,
        SocketEvent::Connected { fd: 3 },
        SocketEvent::HandshakeSucceeded,
        SocketEvent::HandshakeSucceeded,
    ];
    assert_eq!(wait_handshake(2, &events), Some(4));
    assert_eq!(wait_handshake(3, &events), Some(5));
    assert_eq!(wait_handshake(4, &events), None);
}

#[test]
fn gate_with_no_endpoints_is_open_at_once() {
    assert_eq!(wait_handshake(0, &[]), Some(0));
    assert_eq!(wait_handshake(0, &[SocketEvent::Disconnected { fd: 1 }]), Some(0));
    assert!(HandshakeGate::new(0).is_open());
}

#[test]
fn disconnect_asks_for_one_more_handshake() {
    let events = [
        SocketEvent::HandshakeSucceeded,
        SocketEvent::Disconnected { fd: 4 },
        SocketEvent::HandshakeSucceeded,
        SocketEvent::HandshakeSucceeded,
    ];
    assert_eq!(wait_handshake(2, &events), Some(4));
    let mut gate = HandshakeGate::new(2);
    assert!(!gate.observe(&events[0]));
    assert!(!gate.observe(&events[1]));
    assert_eq!(gate.pending(), 2);
    assert!(!gate.observe(&events[2]));
    assert!(gate.observe(&events[3]));
    assert!(gate.is_open());
}

fn notification(seq: u32) -> Message {
    Message::HashBlock(Hash256::from_byte_array([seq as u8; 32]), seq)
}

#[test]
fn finite_stream_ends_at_first_disconnect() {
    let mut s = FiniteMessageStream::new(());
    assert!(!s.is_terminated());
    for i in 0..3 {
        match s.step(Some(Ok(SocketMessage::Message(notification(i))))) {
            FiniteStep::Yield(Ok(m)) => assert_eq!(m, notification(i)),
            other => panic!("unexpected {:?}", other),
        }
    }
    assert!(matches!(
        s.step(Some(Ok(SocketMessage::Event(SocketEvent::HandshakeSucceeded)))),
        FiniteStep::Continue
    ));
    assert!(matches!(
        s.step(Some(Err(MessageError::InvalidSequenceLength(2)))),
        FiniteStep::Yield(Err(MessageError::InvalidSequenceLength(2)))
    ));
    assert!(!s.is_terminated());
    assert!(matches!(
        s.step(Some(Ok(SocketMessage::Event(SocketEvent::Disconnected { fd: 1 })))),
        FiniteStep::End
    ));
    assert!(s.is_terminated());
    assert!(s.inner_mut().is_none());
    assert!(matches!(
        s.step(Some(Ok(SocketMessage::Message(notification(9))))),
        FiniteStep::End
    ));
    assert!(matches!(s.step(None), FiniteStep::End));
    assert!(s.is_terminated());
}

#[test]
fn monitor_events_come_before_data() {
    let frame = event_frame(512, 5);
    let frames: [&[u8]; 2] = [&frame, b"tcp://host:1"];
    assert!(matches!(
        after_monitor_poll(Some(Ok(&frames))),
        MergeStep::Yield(Ok(SocketMessage::Event(SocketEvent::Disconnected { fd: 5 })))
    ));
    assert!(matches!(after_monitor_poll(None), MergeStep::PollData));
    let short: [&[u8]; 1] = [&[1, 2]];
    assert!(matches!(
        after_monitor_poll(Some(Ok(&short))),
        MergeStep::Yield(Err(MessageError::InvalidEventLength(2)))
    ));
    let none: [&[u8]; 0] = [];
    assert!(matches!(
        after_monitor_poll(Some(Ok(&none))),
        MergeStep::Yield(Err(MessageError::InvalidEventLength(0)))
    ));
    assert!(matches!(
        after_monitor_poll(Some(Err(zmq::Error::ETERM))),
        MergeStep::Yield(Err(MessageError::Zmq(zmq::Error::ETERM)))
    ));
}

#[test]
fn received_items_decode_or_carry_transport_error() {
    let frames: [&[u8]; 3] = [b"hashblock", &[1u8; 32], &[2, 0, 0, 0]];
    assert_eq!(
        decode_received(Ok(&frames)).unwrap(),
        Message::HashBlock(Hash256::from_byte_array([1u8; 32]), 2)
    );
    assert!(matches!(
        decode_received(Err(zmq::Error::EINTR)),
        Err(MessageError::Zmq(zmq::Error::EINTR))
    ));
}

#[test]
fn sleep_flag_transitions() {
    let mut st: SleepReadyState<u32> = SleepReadyState::Pending;
    assert!(!st.poll(1));
    assert!(!st.poll(2));
    assert_eq!(st.fire(), Some(2));
    assert!(st.poll(3));
    assert_eq!(st.fire(), None);
    let mut fresh: SleepReadyState<u32> = SleepReadyState::Pending;
    assert_eq!(fresh.fire(), None);
    assert!(fresh.poll(4));
}

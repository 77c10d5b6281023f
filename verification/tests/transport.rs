use pulse::codec::{encode, ProtocolError};
use pulse::transport::{
    first_healthy, negotiate_transport, ConnectionId, ReceiveStep, SocketEvent, TransportError,
    WebSocketState, WebTransportConnection,
};

#[test]
fn test_negotiate_transport() {
    // Client supports both, server has both
    assert_eq!(
        negotiate_transport(
            &["websocket", "webtransport"],
            &["websocket", "webtransport"]
        ),
        Some("webtransport")
    );

    // Client only supports websocket
    assert_eq!(
        negotiate_transport(&["websocket"], &["websocket", "webtransport"]),
        Some("websocket")
    );

    // No common transport
    assert_eq!(negotiate_transport(&["sse"], &["websocket"]), None);
}

#[test]
fn test_connection_id_generation() {
    let id1 = ConnectionId::generate();
    let id2 = ConnectionId::generate();
    assert_ne!(id1, id2);
    assert!(id1.as_str().starts_with("conn_"));
}

#[test]
fn test_connection_id_from_string() {
    let id: ConnectionId = "test-id".into();
    assert_eq!(id.as_str(), "test-id");
}

#[test]
fn generated_ids_are_lower_case_hex_of_the_time() {
    assert_eq!(ConnectionId::generate_at(0).as_str(), "conn_0");
    assert_eq!(ConnectionId::generate_at(255).as_str(), "conn_ff");
    assert_eq!(ConnectionId::generate_at(0x1234_5678_9abc_def0).as_str(), "conn_123456789abcdef0");
    assert_eq!(
        ConnectionId::generate_at(u128::MAX).as_str(),
        "conn_ffffffffffffffffffffffffffffffff"
    );
    let id = ConnectionId::generate();
    assert!(id.as_str()[5..].chars().all(|c| c.is_ascii_hexdigit() && !c.is_ascii_uppercase()));
}

#[test]
fn connection_id_conversions() {
    assert_eq!(ConnectionId::new("abc"), ConnectionId("abc".to_string()));
    assert_eq!(ConnectionId::from("abc".to_string()).as_str(), "abc");
    assert_eq!(ConnectionId::new("abc").to_string(), "abc");
}

#[test]
fn negotiation_follows_the_priority_order() {
    assert_eq!(negotiate_transport(&["sse", "websocket"], &["sse", "websocket"]), Some("websocket"));
    assert_eq!(negotiate_transport(&["sse"], &["websocket", "sse"]), Some("sse"));
    assert_eq!(negotiate_transport(&["webtransport"], &["websocket"]), None);
    assert_eq!(negotiate_transport(&[], &["websocket"]), None);
    assert_eq!(negotiate_transport(&["websocket"], &[]), None);
    assert_eq!(negotiate_transport(&["carrier-pigeon"], &["carrier-pigeon"]), None);
    assert_eq!(negotiate_transport(&["WebSocket"], &["websocket"]), None);
}

#[test]
fn fallback_picks_the_first_healthy_transport() {
    assert_eq!(first_healthy(&[false, true, true]), Some(1));
    assert_eq!(first_healthy(&[true]), Some(0));
    assert_eq!(first_healthy(&[false, false]), None);
    assert_eq!(first_healthy(&[]), None);
}

#[test]
fn websocket_receive_steps() {
    let mut state = WebSocketState::new(64 * 1024);
    assert!(state.is_open());
    let frame = encode(&[1, 2, 3]).unwrap().to_vec();
    assert!(matches!(state.on_event(SocketEvent::Binary(frame[..3].to_vec())), ReceiveStep::ReadFrame));
    assert!(state.next_body().unwrap().is_none());
    assert!(matches!(state.on_event(SocketEvent::Binary(frame[3..].to_vec())), ReceiveStep::ReadFrame));
    assert_eq!(&state.next_body().unwrap().unwrap()[..], &[1, 2, 3]);
    assert!(matches!(
        state.on_event(SocketEvent::Text("\u{0}\u{0}\u{0}\u{2}ok".to_string())),
        ReceiveStep::ReadFrame
    ));
    assert_eq!(&state.next_body().unwrap().unwrap()[..], b"ok");
    match state.on_event(SocketEvent::Ping(vec![7])) {
        ReceiveStep::Pong(payload) => assert_eq!(payload, vec![7]),
        other => panic!("unexpected {:?}", other),
    }
    assert!(matches!(state.on_event(SocketEvent::Pong), ReceiveStep::Continue));
    assert!(matches!(state.on_event(SocketEvent::Raw), ReceiveStep::Continue));
    assert!(state.is_open());
    assert!(state.check_send().is_ok());
}

#[test]
fn websocket_rejects_an_oversized_message() {
    let mut state = WebSocketState::new(4);
    match state.on_event(SocketEvent::Binary(vec![0; 5])) {
        ReceiveStep::Fail(TransportError::Protocol(ProtocolError::FrameTooLarge(size))) => {
            assert_eq!(size, 5)
        }
        other => panic!("unexpected {:?}", other),
    }
    assert!(state.is_open());
    assert!(state.next_body().unwrap().is_none());
    assert!(matches!(state.on_event(SocketEvent::Binary(vec![0; 4])), ReceiveStep::ReadFrame));
}

#[test]
fn websocket_closes_on_close_end_and_errors() {
    for event in [SocketEvent::Close, SocketEvent::ConnectionClosed, SocketEvent::Ended] {
        let mut state = WebSocketState::new(10);
        assert!(matches!(state.on_event(event), ReceiveStep::Finished));
        assert!(!state.is_open());
        assert!(matches!(state.check_send(), Err(TransportError::ConnectionClosed)));
    }
    let mut state = WebSocketState::new(10);
    match state.on_event(SocketEvent::Failed("reset".to_string())) {
        ReceiveStep::Fail(TransportError::ReceiveFailed(what)) => assert_eq!(what, "reset"),
        other => panic!("unexpected {:?}", other),
    }
    assert!(!state.is_open());
}

#[test]
fn closing_twice_closes_the_socket_once() {
    let mut state = WebSocketState::new(10);
    assert!(state.begin_close());
    assert!(!state.is_open());
    assert!(!state.begin_close());
}

#[test]
fn webtransport_connections_are_never_open() {
    let connection = WebTransportConnection::new();
    assert!(!connection.is_open());
    assert!(connection.id().as_str().starts_with("conn_"));
}

#[test]
fn transport_error_messages() {
    assert_eq!(TransportError::ConnectionClosed.to_string(), "Connection closed");
    assert_eq!(TransportError::Timeout.to_string(), "Connection timed out");
    assert_eq!(TransportError::SendFailed("a".into()).to_string(), "Send failed: a");
    assert_eq!(TransportError::ReceiveFailed("b".into()).to_string(), "Receive failed: b");
    assert_eq!(
        TransportError::Protocol(ProtocolError::Incomplete(3)).to_string(),
        "Protocol error: Incomplete frame: need 3 more bytes"
    );
    assert_eq!(TransportError::Io("c".into()).to_string(), "I/O error: c");
    assert_eq!(TransportError::Other("d".into()).to_string(), "d");
}

use pulse::frames::{Frame, FrameType, PresenceAction};

#[test]
fn test_frame_type() {
    let subscribe = Frame::subscribe(1, "test");
    assert_eq!(subscribe.frame_type(), FrameType::Subscribe);

    let publish = Frame::publish("test", b"hello".to_vec());
    assert_eq!(publish.frame_type(), FrameType::Publish);
}

#[test]
fn test_presence_action_conversion() {
    assert_eq!(PresenceAction::try_from(0), Ok(PresenceAction::Join));
    assert_eq!(PresenceAction::try_from(1), Ok(PresenceAction::Leave));
    assert_eq!(PresenceAction::try_from(2), Ok(PresenceAction::Update));
    assert_eq!(PresenceAction::try_from(3), Ok(PresenceAction::Sync));
    assert!(PresenceAction::try_from(4).is_err());
}

#[test]
fn presence_action_codes_round_trip() {
    for code in 0u8..=3 {
        let action = PresenceAction::try_from(code).unwrap();
        assert_eq!(u8::from(action), code);
    }
    assert_eq!(PresenceAction::try_from(255), Err("Invalid presence action"));
}

#[test]
fn frame_type_codes_round_trip() {
    let kinds = [
        (FrameType::Subscribe, 1u8),
        (FrameType::Unsubscribe, 2),
        (FrameType::Publish, 3),
        (FrameType::Presence, 4),
        (FrameType::Ack, 5),
        (FrameType::Error, 6),
        (FrameType::Ping, 7),
        (FrameType::Pong, 8),
        (FrameType::Connect, 9),
        (FrameType::Connected, 10),
    ];
    for (kind, code) in kinds {
        assert_eq!(u8::from(kind), code);
        assert_eq!(FrameType::try_from(code), Ok(kind));
    }
    assert_eq!(FrameType::try_from(0), Err("Invalid frame type"));
    assert_eq!(FrameType::try_from(11), Err("Invalid frame type"));
}

#[test]
fn constructors_fill_the_fields() {
    assert_eq!(Frame::subscribe(1, "test"), Frame::Subscribe { id: 1, channel: "test".to_string() });
    assert_eq!(Frame::unsubscribe(2, "t"), Frame::Unsubscribe { id: 2, channel: "t".to_string() });
    assert_eq!(
        Frame::publish("chat:room", b"Hello, world!".to_vec()),
        Frame::Publish {
            id: None,
            channel: "chat:room".to_string(),
            event: None,
            payload: b"Hello, world!".to_vec()
        }
    );
    assert_eq!(
        Frame::publish_with_ack(9, "c", vec![]),
        Frame::Publish { id: Some(9), channel: "c".to_string(), event: None, payload: vec![] }
    );
    assert_eq!(Frame::ack(42), Frame::Ack { id: 42 });
    assert_eq!(
        Frame::error(1, 1001, "Invalid frame"),
        Frame::Error { id: 1, code: 1001, message: "Invalid frame".to_string() }
    );
    assert_eq!(Frame::ping(), Frame::Ping { timestamp: None });
    assert_eq!(Frame::ping_with_timestamp(5), Frame::Ping { timestamp: Some(5) });
    assert_eq!(Frame::pong(Some(5)), Frame::Pong { timestamp: Some(5) });
    assert_eq!(Frame::pong(None), Frame::Pong { timestamp: None });
    assert_eq!(
        Frame::connect(1, Some("token123".to_string())),
        Frame::Connect { version: 1, token: Some("token123".to_string()) }
    );
    assert_eq!(
        Frame::connected("conn-123", 1, 30000),
        Frame::Connected { connection_id: "conn-123".to_string(), version: 1, heartbeat: 30000 }
    );
}

#[test]
fn every_variant_reports_its_kind() {
    assert_eq!(Frame::unsubscribe(1, "t").frame_type(), FrameType::Unsubscribe);
    assert_eq!(
        Frame::Presence { id: 1, channel: "t".to_string(), action: PresenceAction::Join, data: None }
            .frame_type(),
        FrameType::Presence
    );
    assert_eq!(Frame::ack(1).frame_type(), FrameType::Ack);
    assert_eq!(Frame::error(1, 2, "m").frame_type(), FrameType::Error);
    assert_eq!(Frame::ping().frame_type(), FrameType::Ping);
    assert_eq!(Frame::pong(None).frame_type(), FrameType::Pong);
    assert_eq!(Frame::connect(1, None).frame_type(), FrameType::Connect);
    assert_eq!(Frame::connected("c", 1, 2).frame_type(), FrameType::Connected);
}

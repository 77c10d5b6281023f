use pulse::codec::{encode, ProtocolError};
use pulse::frames::{Frame, PresenceAction};
use pulse::message::Message;
use pulse::router::{Router, RouterConfig};
use pulse::session::{
    after_failure, forward_step, outbound_frame, published_message, FailureStep, ForwardEvent,
    ForwardStep, Session, SessionAction, SessionFailure, TransportEvent, TransportStep,
};
use std::sync::Arc;
use tokio::sync::broadcast::error::TryRecvError;

fn sent(action: &SessionAction) -> &Frame {
    match action {
        SessionAction::Send(frame) => frame,
        other => panic!("expected a frame to send, got {:?}", other),
    }
}

#[test]
fn accept_answers_with_connected() {
    let (session, frame) = Session::accept("conn-1", 30_000);
    assert_eq!(frame, Frame::connected("conn-1", 1, 30_000));
    assert!(session.open());
    assert_eq!(session.connection_id(), "conn-1");
    assert_eq!(session.forwarder_count(), 0);
    // the heartbeat keeps the low 32 bits of the interval
    let (_, frame) = Session::accept("c", (1u64 << 32) + 5);
    assert_eq!(frame, Frame::connected("c", 1, 5));
}

#[test]
fn subscribe_starts_a_forwarder_and_acks() {
    let mut router = Router::new();
    let (mut session, _) = Session::accept("c1", 1000);
    let mut actions = session.handle_frame(&mut router, &Frame::subscribe(7, "news"));
    assert_eq!(actions.len(), 2);
    assert_eq!(sent(&actions[1]), &Frame::ack(7));
    let mut receiver = match actions.remove(0) {
        SessionAction::StartForwarder { channel, receiver } => {
            assert_eq!(channel, "news");
            receiver
        }
        other => panic!("unexpected {:?}", other),
    };
    assert_eq!(session.forwarder_count(), 1);
    assert_eq!(router.subscriber_count("news"), 1);
    router.publish_to("news", b"x".to_vec());
    assert_eq!(&receiver.try_recv().unwrap().payload[..], b"x");
}

#[test]
fn refused_subscribe_is_reported_with_code_1002() {
    let mut router = Router::with_config(RouterConfig {
        max_subscriptions_per_connection: 1,
        ..RouterConfig::default()
    });
    let (mut session, _) = Session::accept("c1", 1000);
    let _first = session.handle_frame(&mut router, &Frame::subscribe(1, "a"));

    let again = session.handle_frame(&mut router, &Frame::subscribe(2, "b"));
    assert_eq!(again.len(), 1);
    assert_eq!(sent(&again[0]), &Frame::error(2, 1002, "Maximum subscriptions reached"));

    let invalid = session.handle_frame(&mut router, &Frame::subscribe(3, "$x"));
    assert_eq!(
        sent(&invalid[0]),
        &Frame::error(
            3,
            1002,
            "Invalid channel name: Channel names starting with '$' are reserved"
        )
    );
    assert_eq!(session.forwarder_count(), 1);

    let mut roomy = Router::new();
    let (mut other, _) = Session::accept("c2", 1000);
    let _ok = other.handle_frame(&mut roomy, &Frame::subscribe(1, "t"));
    let dup = other.handle_frame(&mut roomy, &Frame::subscribe(2, "t"));
    assert_eq!(sent(&dup[0]), &Frame::error(2, 1002, "Already subscribed to channel: t"));
}

#[test]
fn unsubscribe_stops_the_forwarder_and_acks() {
    let mut router = Router::new();
    let (mut session, _) = Session::accept("c1", 1000);
    let _started = session.handle_frame(&mut router, &Frame::subscribe(1, "news"));
    let actions = session.handle_frame(&mut router, &Frame::unsubscribe(2, "news"));
    assert_eq!(actions.len(), 2);
    assert!(matches!(&actions[0], SessionAction::StopForwarder { channel } if channel == "news"));
    assert_eq!(sent(&actions[1]), &Frame::ack(2));
    assert_eq!(session.forwarder_count(), 0);
    assert!(!router.channel_exists("news"));
}

#[test]
fn unsubscribe_without_subscription_is_reported_with_code_1008() {
    let mut router = Router::new();
    let (mut session, _) = Session::accept("c1", 1000);
    let actions = session.handle_frame(&mut router, &Frame::unsubscribe(5, "news"));
    assert_eq!(actions.len(), 1);
    assert_eq!(sent(&actions[0]), &Frame::error(5, 1008, "Not subscribed to channel: news"));
}

#[test]
fn publish_is_stamped_with_the_connection_and_acked_on_request() {
    let mut router = Router::new();
    let mut rx = router.subscribe("listener", "chat").unwrap();
    let (mut session, _) = Session::accept("c1", 1000);

    let silent = session.handle_frame(&mut router, &Frame::publish("chat", b"hi".to_vec()));
    assert!(silent.is_empty());
    let message = rx.try_recv().unwrap();
    assert_eq!(message.source.as_deref(), Some("c1"));
    assert_eq!(message.channel, "chat");
    assert!(message.event.is_none());
    assert_eq!(&message.payload[..], b"hi");

    let frame = Frame::Publish {
        id: Some(9),
        channel: "chat".to_string(),
        event: Some("greeting".to_string()),
        payload: vec![],
    };
    let acked = session.handle_frame(&mut router, &frame);
    assert_eq!(acked.len(), 1);
    assert_eq!(sent(&acked[0]), &Frame::ack(9));
    let message = rx.try_recv().unwrap();
    assert_eq!(message.event.as_deref(), Some("greeting"));
    assert_eq!(message.payload_size(), 0);

    // publishing to a channel that does not exist is no error
    let nowhere = session.handle_frame(&mut router, &Frame::publish_with_ack(10, "void", vec![1]));
    assert_eq!(sent(&nowhere[0]), &Frame::ack(10));
    assert!(!router.channel_exists("void"));
}

#[test]
fn a_subscriber_receives_its_own_message() {
    let mut router = Router::new();
    let (mut session, _) = Session::accept("c1", 1000);
    let mut actions = session.handle_frame(&mut router, &Frame::subscribe(1, "t"));
    let mut receiver = match actions.remove(0) {
        SessionAction::StartForwarder { receiver, .. } => receiver,
        other => panic!("unexpected {:?}", other),
    };
    let _ = session.handle_frame(&mut router, &Frame::publish("t", b"me".to_vec()));
    assert_eq!(&receiver.try_recv().unwrap().payload[..], b"me");
}

#[test]
fn ping_is_answered_with_the_same_timestamp() {
    let mut router = Router::new();
    let (mut session, _) = Session::accept("c1", 1000);
    let actions = session.handle_frame(&mut router, &Frame::ping_with_timestamp(123));
    assert_eq!(sent(&actions[0]), &Frame::pong(Some(123)));
    let actions = session.handle_frame(&mut router, &Frame::ping());
    assert_eq!(sent(&actions[0]), &Frame::pong(None));
}

#[test]
fn other_frames_are_ignored() {
    let mut router = Router::new();
    let (mut session, _) = Session::accept("c1", 1000);
    let frames = [
        Frame::pong(Some(1)),
        Frame::connect(2, Some("token".to_string())),
        Frame::ack(1),
        Frame::error(1, 1000, "x"),
        Frame::connected("other", 1, 5),
        Frame::Presence { id: 1, channel: "t".to_string(), action: PresenceAction::Join, data: None },
    ];
    for frame in frames {
        assert!(session.handle_frame(&mut router, &frame).is_empty());
    }
    assert!(session.open());
    assert_eq!(router.stats().connection_count, 0);
}

#[test]
fn close_stops_all_forwarders_and_unsubscribes() {
    let mut router = Router::new();
    let (mut session, _) = Session::accept("c1", 1000);
    let (mut other, _) = Session::accept("c2", 1000);
    let _a = session.handle_frame(&mut router, &Frame::subscribe(1, "a"));
    let _b = session.handle_frame(&mut router, &Frame::subscribe(2, "b"));
    let _c = other.handle_frame(&mut router, &Frame::subscribe(1, "b"));
    router.presence_join("c1", "b", None);

    let actions = session.close(&mut router);
    assert_eq!(actions.len(), 2);
    assert!(matches!(&actions[0], SessionAction::StopForwarder { channel } if channel == "a"));
    assert!(matches!(&actions[1], SessionAction::StopForwarder { channel } if channel == "b"));
    assert!(!session.open());
    assert_eq!(session.forwarder_count(), 0);
    assert!(!router.channel_exists("a"));
    assert_eq!(router.subscriber_count("b"), 1);
    assert!(router.presence_snapshot("b").is_empty());
    assert!(router.connection_channels("c1").is_empty());
    assert!(other.open());
}

#[test]
fn inbound_bytes_are_buffered_until_a_frame_is_complete() {
    let (mut session, _) = Session::accept("c1", 1000);
    let one = encode(&[1, 2, 3]).unwrap();
    let two = encode(&[4]).unwrap();
    let mut stream = one.to_vec();
    stream.extend_from_slice(&two);

    session.receive(&stream[..2]).unwrap();
    assert!(session.next_body().unwrap().is_none());
    session.receive(&stream[2..]).unwrap();
    assert_eq!(&session.next_body().unwrap().unwrap()[..], &[1, 2, 3]);
    assert_eq!(&session.next_body().unwrap().unwrap()[..], &[4]);
    assert!(session.next_body().unwrap().is_none());
}

#[test]
fn a_bad_frame_in_the_stream_is_an_error() {
    let (mut session, _) = Session::accept("c1", 1000);
    session.receive(&[0xff, 0xff, 0xff, 0xff, 1]).unwrap();
    assert!(matches!(session.next_body(), Err(ProtocolError::FrameTooLarge(_))));
}

#[test]
fn transport_events_are_classified() {
    let (mut session, _) = Session::accept("c1", 1000);
    let frame = encode(&[9, 9]).unwrap().to_vec();
    assert!(matches!(
        session.on_transport_event(TransportEvent::Binary(frame)),
        Ok(TransportStep::ReadFrames)
    ));
    assert_eq!(&session.next_body().unwrap().unwrap()[..], &[9, 9]);
    assert!(matches!(
        session.on_transport_event(TransportEvent::Text("\u{0}\u{0}\u{0}\u{1}A".to_string())),
        Ok(TransportStep::ReadFrames)
    ));
    assert_eq!(&session.next_body().unwrap().unwrap()[..], b"A");
    match session.on_transport_event(TransportEvent::Ping(vec![1, 2])) {
        Ok(TransportStep::Pong(payload)) => assert_eq!(payload, vec![1, 2]),
        other => panic!("unexpected {:?}", other),
    }
    assert!(matches!(session.on_transport_event(TransportEvent::Pong), Ok(TransportStep::Nothing)));
    for event in [TransportEvent::Close, TransportEvent::Failed, TransportEvent::Ended] {
        assert!(matches!(session.on_transport_event(event), Ok(TransportStep::Teardown)));
    }
}

#[test]
fn forwarded_messages_go_out_as_publish_without_id() {
    let message = Message::new(1, "chat", b"payload".to_vec()).with_event("ev").with_source("c9");
    assert_eq!(
        outbound_frame("chat".to_string(), &message),
        Frame::Publish {
            id: None,
            channel: "chat".to_string(),
            event: Some("ev".to_string()),
            payload: b"payload".to_vec()
        }
    );
    let plain = Message::new(2, "chat", vec![]);
    assert_eq!(outbound_frame("chat".to_string(), &plain), Frame::publish("chat", vec![]));
}

#[test]
fn forwarder_survives_lag_and_stops_when_the_channel_is_gone() {
    let message = Arc::new(Message::new(1, "c", vec![1]));
    match forward_step(ForwardEvent::Message(message.clone())) {
        ForwardStep::Deliver(m) => assert!(Arc::ptr_eq(&m, &message)),
        other => panic!("unexpected {:?}", other),
    }
    assert!(matches!(forward_step(ForwardEvent::Lagged(1016)), ForwardStep::Continue));
    assert!(matches!(forward_step(ForwardEvent::Closed), ForwardStep::Stop));
}

#[test]
fn a_slow_subscriber_lags_and_then_resumes() {
    let mut router = Router::with_config(RouterConfig {
        channel_capacity: 8,
        ..RouterConfig::default()
    });
    let (mut session, _) = Session::accept("slow", 1000);
    let mut actions = session.handle_frame(&mut router, &Frame::subscribe(1, "busy"));
    let mut receiver = match actions.remove(0) {
        SessionAction::StartForwarder { receiver, .. } => receiver,
        other => panic!("unexpected {:?}", other),
    };
    for i in 0..1024u32 {
        assert_eq!(router.publish_to("busy", i.to_be_bytes().to_vec()), 1);
    }
    let event = match receiver.try_recv() {
        Err(TryRecvError::Lagged(missed)) => {
            assert_eq!(missed, 1024 - 8);
            ForwardEvent::Lagged(missed)
        }
        other => panic!("expected a lag signal, got {:?}", other.map(|m| m.id)),
    };
    assert!(matches!(forward_step(event), ForwardStep::Continue));
    let next = receiver.try_recv().unwrap();
    assert_eq!(&next.payload[..], &1016u32.to_be_bytes());
    assert!(matches!(forward_step(ForwardEvent::Message(next)), ForwardStep::Deliver(_)));
    assert!(session.open());
    assert_eq!(session.forwarder_count(), 1);
    assert_eq!(router.subscriber_count("busy"), 1);
}

#[test]
fn only_a_failed_outbound_encoding_is_survivable() {
    assert_eq!(after_failure(SessionFailure::InboundDecode), FailureStep::Teardown);
    assert_eq!(after_failure(SessionFailure::Send), FailureStep::Teardown);
    assert_eq!(after_failure(SessionFailure::OutboundEncode), FailureStep::DropMessage);
}

#[test]
fn a_published_message_names_its_source() {
    let with_event =
        published_message(11, "c1", "chat", &Some("typing".to_string()), &vec![1, 2, 3]);
    assert_eq!(with_event.id, 11);
    assert_eq!(with_event.source.as_deref(), Some("c1"));
    assert_eq!(with_event.channel, "chat");
    assert_eq!(with_event.event.as_deref(), Some("typing"));
    assert_eq!(&with_event.payload[..], &[1, 2, 3]);
    let plain = published_message(12, "c1", "chat", &None, &vec![]);
    assert!(plain.event.is_none());
    assert_eq!(plain.payload_size(), 0);
}

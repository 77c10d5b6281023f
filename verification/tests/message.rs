use pulse::message::{generate_message_id, DeliveryMessage, Message, MessageIds};

#[test]
fn test_message_creation() {
    let msg = Message::new(1, "test-channel", b"hello".to_vec());
    assert_eq!(msg.channel, "test-channel");
    assert_eq!(&msg.payload[..], b"hello");
    assert!(msg.source.is_none());
}

#[test]
fn test_message_with_source() {
    let msg = Message::new(1, "test", b"data".to_vec())
        .with_source("conn-123")
        .with_event("user:message");

    assert_eq!(msg.source, Some("conn-123".to_string()));
    assert_eq!(msg.event, Some("user:message".to_string()));
}

#[test]
fn test_unique_message_ids() {
    let mut ids = MessageIds::new();
    let id1 = ids.next_id();
    let id2 = ids.next_id();
    assert_ne!(id1, id2);
}

#[test]
fn message_id_is_the_wrapping_sum() {
    assert_eq!(generate_message_id(1_000, 0), 1_000);
    assert_eq!(generate_message_id(1_000, 7), 1_007);
    assert_eq!(generate_message_id(u64::MAX, 1), 0);
    assert_eq!(generate_message_id(u64::MAX - 1, 5), 3);
}

#[test]
fn ids_of_one_source_count_up_at_a_fixed_time() {
    let mut ids = MessageIds::new();
    let a = ids.next_id_at(500);
    let b = ids.next_id_at(500);
    let c = ids.next_id_at(500);
    assert_eq!((a, b, c), (500, 501, 502));
}

#[test]
fn many_generated_ids_are_pairwise_distinct() {
    let mut ids = MessageIds::new();
    let mut seen = std::collections::HashSet::new();
    for _ in 0..1000 {
        assert!(seen.insert(ids.next_id()));
    }
}

#[test]
fn message_keeps_what_it_was_given() {
    let msg = Message::new_at(77, "news", vec![1, 2, 3], 123_456);
    assert_eq!(msg.id, 77);
    assert_eq!(msg.timestamp, 123_456);
    assert!(msg.event.is_none());
    assert_eq!(msg.payload_size(), 3);
    assert_eq!(&msg.payload()[..], &[1, 2, 3]);

    let empty = Message::new(1, "news", vec![]);
    assert_eq!(empty.payload_size(), 0);
    assert!(empty.timestamp > 0);
}

#[test]
fn builders_keep_the_other_fields() {
    let msg = Message::new_at(5, "c", b"p".to_vec(), 9).with_event("e").with_source("s");
    assert_eq!(msg.id, 5);
    assert_eq!(msg.channel, "c");
    assert_eq!(msg.timestamp, 9);
    assert_eq!(msg.event.as_deref(), Some("e"));
    assert_eq!(msg.source.as_deref(), Some("s"));
    assert_eq!(&msg.payload[..], b"p");
}

#[test]
fn delivery_message_pairs_message_and_target() {
    let d = DeliveryMessage::new(Message::new(3, "c", vec![9]), "conn-1");
    assert_eq!(d.target, "conn-1");
    assert_eq!(d.message.id, 3);
}

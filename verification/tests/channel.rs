use pulse::channel::{validate_channel_name, Channel, MAX_CHANNEL_NAME_LENGTH};
use pulse::message::Message;

#[test]
fn test_channel_creation() {
    let channel = Channel::new("test:room");
    assert_eq!(channel.name(), "test:room");
    assert_eq!(channel.subscriber_count(), 0);
    assert!(channel.is_empty());
}

#[test]
fn test_channel_subscribe_unsubscribe() {
    let mut channel = Channel::new("test");

    let _rx = channel.subscribe("conn-1");
    assert_eq!(channel.subscriber_count(), 1);
    assert!(channel.is_subscribed("conn-1"));

    let _rx2 = channel.subscribe("conn-2");
    assert_eq!(channel.subscriber_count(), 2);

    assert!(channel.unsubscribe("conn-1"));
    assert_eq!(channel.subscriber_count(), 1);
    assert!(!channel.is_subscribed("conn-1"));

    // Unsubscribing non-existent connection
    assert!(!channel.unsubscribe("conn-1"));
}

#[test]
fn test_channel_name_validation() {
    assert!(validate_channel_name("valid:channel").is_ok());
    assert!(validate_channel_name("").is_err());
    assert!(validate_channel_name("$system").is_err());

    let long_name = "a".repeat(MAX_CHANNEL_NAME_LENGTH + 1);
    assert!(validate_channel_name(&long_name).is_err());
}

#[test]
fn test_channel_publish() {
    let mut channel = Channel::new("test");
    let mut rx = channel.subscribe("conn-1");

    let count = channel.publish_payload(1, b"hello".to_vec());
    assert_eq!(count, 1);

    let msg = rx.try_recv().unwrap();
    assert_eq!(&msg.payload[..], b"hello");
}

#[test]
fn validation_reports_the_first_broken_rule() {
    assert_eq!(validate_channel_name(""), Err("Channel name cannot be empty"));
    assert_eq!(validate_channel_name(&"a".repeat(257)), Err("Channel name too long"));
    assert_eq!(
        validate_channel_name("$system"),
        Err("Channel names starting with '$' are reserved")
    );
    assert_eq!(
        validate_channel_name("tab\there"),
        Err("Channel name contains invalid characters")
    );
    assert_eq!(
        validate_channel_name("caf\u{e9}"),
        Err("Channel name contains invalid characters")
    );
    assert_eq!(
        validate_channel_name("del\u{7f}"),
        Err("Channel name contains invalid characters")
    );
    // an over-long name that also starts with `$` is reported as too long
    assert_eq!(validate_channel_name(&"$".repeat(300)), Err("Channel name too long"));
    // the length counts bytes: 129 two-byte characters are 258 bytes
    assert_eq!(validate_channel_name(&"\u{e9}".repeat(129)), Err("Channel name too long"));
}

#[test]
fn validation_accepts_the_edges() {
    assert_eq!(validate_channel_name(&"a".repeat(256)), Ok(()));
    assert_eq!(validate_channel_name("a"), Ok(()));
    assert_eq!(validate_channel_name(" "), Ok(()));
    assert_eq!(validate_channel_name("~"), Ok(()));
    assert_eq!(validate_channel_name("a$"), Ok(()));
    assert_eq!(validate_channel_name("chat:room/1 (beta)"), Ok(()));
}

#[test]
fn channel_with_capacity_reports_it() {
    let channel = Channel::with_capacity("c", 8);
    assert_eq!(channel.capacity(), 8);
    assert_eq!(Channel::new("c").capacity(), 1024);
}

#[test]
fn subscribers_are_listed_once_in_order() {
    let mut channel = Channel::new("c");
    let _a = channel.subscribe("a");
    let _b = channel.subscribe("b");
    let _a2 = channel.subscribe("a");
    assert_eq!(channel.subscribers(), vec!["a".to_string(), "b".to_string()]);
    assert_eq!(channel.subscriber_count(), 2);
    assert!(channel.unsubscribe("a"));
    assert_eq!(channel.subscribers(), vec!["b".to_string()]);
    assert!(channel.unsubscribe("b"));
    assert!(channel.is_empty());
}

#[test]
fn publish_counts_live_receivers_only() {
    let mut channel = Channel::new("c");
    assert_eq!(channel.publish(Message::new(1, "c", vec![1])), 0);
    let rx1 = channel.subscribe("a");
    let mut rx2 = channel.subscribe("b");
    assert_eq!(channel.publish(Message::new(2, "c", vec![2])), 2);
    drop(rx1);
    assert_eq!(channel.publish(Message::new(3, "c", vec![3])), 1);
    assert_eq!(rx2.try_recv().unwrap().id, 2);
    assert_eq!(rx2.try_recv().unwrap().id, 3);
    assert!(rx2.try_recv().is_err());
}

#[test]
fn a_receiver_sees_only_later_messages() {
    let mut channel = Channel::new("c");
    let _first = channel.subscribe("a");
    channel.publish(Message::new(1, "c", vec![1]));
    let mut late = channel.subscribe("b");
    channel.publish(Message::new(2, "c", vec![2]));
    assert_eq!(late.try_recv().unwrap().id, 2);
}

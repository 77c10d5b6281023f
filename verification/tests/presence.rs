use pulse::presence::{Presence, PresenceState};
use serde_json::Value;
use std::time::Duration;

fn object(key: &str, value: &str) -> Value {
    let mut map = serde_json::Map::new();
    map.insert(key.to_string(), Value::String(value.to_string()));
    Value::Object(map)
}

#[test]
fn test_presence_state() {
    let state = PresenceState::new("conn-1").with_data(object("name", "Alice"));

    assert_eq!(state.connection_id, "conn-1");
    assert!(state.data.is_some());
}

#[test]
fn test_presence_join_leave() {
    let mut presence = Presence::new();

    assert!(presence.join("conn-1", None));
    assert!(!presence.join("conn-1", None)); // Already present

    assert_eq!(presence.count(), 1);
    assert!(presence.is_present("conn-1"));

    assert!(presence.leave("conn-1").is_some());
    assert!(!presence.is_present("conn-1"));
}

#[test]
fn test_presence_update() {
    let mut presence = Presence::new();
    presence.join("conn-1", None);

    assert!(presence.update("conn-1", object("status", "away")));
    assert!(!presence.update("conn-2", Value::Object(serde_json::Map::new()))); // Doesn't exist

    let state = presence.get("conn-1").unwrap();
    assert!(state.data.is_some());
}

#[test]
fn test_presence_snapshot() {
    let mut presence = Presence::new();
    presence.join("conn-1", Some(object("name", "Alice")));
    presence.join("conn-2", Some(object("name", "Bob")));

    let snapshot = presence.snapshot();
    assert_eq!(snapshot.len(), 2);
}

#[test]
fn staleness_is_strictly_more_than_the_timeout() {
    let state = PresenceState::new_at("c", 1_000);
    assert!(!state.is_stale_at(1_000, 0));
    assert!(!state.is_stale_at(1_500, 500));
    assert!(state.is_stale_at(1_501, 500));
    assert!(state.is_stale_at(1_001, 0));
    // a state seen "in the future" is not stale
    assert!(!state.is_stale_at(999, 0));
    assert!(!state.is_stale_at(0, 0));
}

#[test]
fn fresh_state_is_not_stale_under_a_long_timeout() {
    let state = PresenceState::new("c");
    assert_eq!(state.joined_at, state.last_seen);
    assert!(state.data.is_none());
    assert!(!state.is_stale(Duration::from_secs(3600)));
}

#[test]
fn a_state_from_long_ago_is_stale_under_a_short_timeout() {
    let state = PresenceState::new_at("c", 1);
    assert!(state.is_stale(Duration::from_millis(1_500)));
    // the timeout counts in whole milliseconds
    assert!(state.is_stale(Duration::from_nanos(999_999)));
    assert!(!state.is_stale(Duration::from_secs(u64::MAX / 1_000)));
}

#[test]
fn touch_and_update_move_last_seen_only() {
    let mut state = PresenceState::new_at("c", 10);
    state.touch_at(20);
    assert_eq!((state.joined_at, state.last_seen), (10, 20));
    assert!(state.data.is_none());
    state.update_data_at(Value::Bool(true), 30);
    assert_eq!((state.joined_at, state.last_seen), (10, 30));
    assert_eq!(state.data, Some(Value::Bool(true)));
    state.touch();
    assert!(state.last_seen >= 30);
    assert_eq!(state.joined_at, 10);
}

#[test]
fn rejoining_replaces_metadata_and_times() {
    let mut presence = Presence::new();
    assert!(presence.join_at("a", Some(object("k", "old")), 100));
    assert!(presence.join_at("b", None, 110));
    assert!(!presence.join_at("a", None, 200));
    let a = presence.get("a").unwrap();
    assert!(a.data.is_none());
    assert_eq!((a.joined_at, a.last_seen), (200, 200));
    assert_eq!(presence.connection_ids(), vec!["a", "b"]);
    assert_eq!(presence.count(), 2);
}

#[test]
fn leave_is_idempotent_and_returns_the_state() {
    let mut presence = Presence::new();
    presence.join_at("a", Some(Value::from(5)), 100);
    presence.join_at("b", None, 101);
    let gone = presence.leave("a").unwrap();
    assert_eq!(gone.connection_id, "a");
    assert_eq!(gone.data, Some(Value::from(5)));
    assert_eq!(gone.joined_at, 100);
    assert!(presence.leave("a").is_none());
    assert_eq!(presence.connection_ids(), vec!["b"]);
    assert!(presence.leave("b").is_some());
    assert!(presence.is_empty());
}

#[test]
fn update_and_touch_keep_joined_at() {
    let mut presence = Presence::new();
    presence.join_at("a", None, 100);
    assert!(presence.update_at("a", Value::from("x"), 150));
    assert!(!presence.update_at("zz", Value::Null, 150));
    presence.touch_at("a", 170);
    presence.touch_at("nobody", 171);
    let a = presence.get("a").unwrap();
    assert_eq!((a.joined_at, a.last_seen), (100, 170));
    assert_eq!(a.data, Some(Value::from("x")));
    presence.touch("a");
    assert!(presence.get("a").unwrap().last_seen >= 170);
    assert!(presence.get("nobody").is_none());
}

#[test]
fn prune_removes_exactly_the_stale_members() {
    let mut presence = Presence::new();
    presence.join_at("old-1", None, 100);
    presence.join_at("fresh", None, 900);
    presence.join_at("old-2", None, 200);
    presence.join_at("edge", None, 500);
    // at time 1000 with timeout 500: stale means 1000 - last_seen > 500
    let removed = presence.prune_stale_at(1_000, 500);
    assert_eq!(removed, vec!["old-1".to_string(), "old-2".to_string()]);
    assert_eq!(presence.connection_ids(), vec!["fresh", "edge"]);
    assert!(presence.prune_stale_at(1_000, 500).is_empty());
    assert_eq!(presence.count(), 2);
}

#[test]
fn prune_with_the_clock_keeps_fresh_members() {
    let mut presence = Presence::new();
    presence.join("a", None);
    presence.join_at("ancient", None, 1);
    let removed = presence.prune_stale(Duration::from_secs(60));
    assert_eq!(removed, vec!["ancient".to_string()]);
    assert!(presence.is_present("a"));
}

#[test]
fn snapshot_and_members_follow_join_order() {
    let mut presence = Presence::new();
    presence.join_at("a", Some(object("name", "Alice")), 1);
    presence.join_at("b", Some(object("name", "Bob")), 2);
    let snapshot = presence.snapshot();
    assert_eq!(snapshot[0].connection_id, "a");
    assert_eq!(snapshot[0].data, Some(object("name", "Alice")));
    assert_eq!(snapshot[1].connection_id, "b");
    assert_eq!(snapshot[1].joined_at, 2);
    let members = presence.members();
    assert_eq!(members.len(), 2);
    assert_eq!(members[1].connection_id, "b");
    // the snapshot is a copy
    presence.leave("a");
    assert_eq!(snapshot.len(), 2);
}

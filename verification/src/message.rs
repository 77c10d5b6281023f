//! Messages: the internal form of a published payload.

use crate::buffer::contents;
use crate::clock::unix_millis;
use crate::clock::unix_nanos;
use bytes::Bytes;
use std::sync::Arc;
use vstd::prelude::*;

verus! {

/// A message identifier.
pub type MessageId = u64;

/// The identifier made from a clock reading and a counter value: their sum,
/// wrapping around at 64 bits.
pub open spec fn message_id(timestamp_nanos: u64, counter: u64) -> MessageId {
    ((timestamp_nanos + counter) % 0x1_0000_0000_0000_0000) as u64
}

/// Combines a clock reading in nanoseconds with a counter value into a
/// message identifier.
#[must_use]
pub fn generate_message_id(timestamp_nanos: u64, counter: u64) -> (id: MessageId)
    ensures
        id == message_id(timestamp_nanos, counter),
{
    timestamp_nanos.wrapping_add(counter)
}

/// Two identifiers are distinct, and ordered like their counters, when the
/// clock did not go back between the two readings and the later sum still fits
/// in 64 bits.
pub proof fn lemma_message_ids_distinct(t1: u64, c1: u64, t2: u64, c2: u64)
    requires
        t1 <= t2,
        c1 < c2,
        t2 + c2 <= u64::MAX,
    ensures
        message_id(t1, c1) < message_id(t2, c2),
        message_id(t1, c1) != message_id(t2, c2),
{
}

/// Identifiers drawn at the same clock reading from different counter values
/// are distinct, whatever the reading.
pub proof fn lemma_message_ids_distinct_at(t: u64, c1: u64, c2: u64)
    requires
        c1 != c2,
    ensures
        message_id(t, c1) != message_id(t, c2),
{
}

/// The identifiers that a source hands out, one per clock reading in
/// `stamps`, when its counter stands at `start` before the first.
pub open spec fn issued_ids(start: u64, stamps: Seq<u64>) -> Seq<MessageId> {
    Seq::new(stamps.len(), |i: int| message_id(stamps[i], message_id(start, i as u64)))
}

/// The identifiers that one source hands out are pairwise distinct, and grow
/// from one to the next, as long as the clock does not go back and the sum of
/// the last reading and the last counter value fits in 64 bits.
pub proof fn lemma_issued_ids_distinct(start: u64, stamps: Seq<u64>)
    requires
        forall|i: int, j: int| 0 <= i <= j < stamps.len() ==> stamps[i] <= stamps[j],
        stamps.len() > 0 ==> start + stamps.len() + stamps.last() <= u64::MAX,
    ensures
        forall|i: int, j: int|
            0 <= i < j < stamps.len() ==> #[trigger] issued_ids(start, stamps)[i]
                < #[trigger] issued_ids(start, stamps)[j],
        issued_ids(start, stamps).no_duplicates(),
{
    let ids = issued_ids(start, stamps);
    assert forall|i: int, j: int| 0 <= i < j < stamps.len() implies #[trigger] ids[i]
        < #[trigger] ids[j] by {
        assert(stamps[j] <= stamps.last());
        assert(stamps[i] <= stamps[j]);
        assert(message_id(start, i as u64) == start + i);
        assert(message_id(start, j as u64) == start + j);
        lemma_message_ids_distinct(
            stamps[i],
            message_id(start, i as u64),
            stamps[j],
            message_id(start, j as u64),
        );
    }
    assert forall|i: int, j: int| 0 <= i < ids.len() && 0 <= j < ids.len() && i != j implies ids[i]
        != ids[j] by {
        if i < j {
            assert(ids[i] < ids[j]);
        } else {
            assert(ids[j] < ids[i]);
        }
    }
}

/// A source of message identifiers: it counts the identifiers it has handed
/// out and mixes the count into each new one.
#[derive(Debug)]
pub struct MessageIds {
    counter: u64,
}

impl MessageIds {
    /// How many identifiers were handed out, modulo 2^64.
    pub closed spec fn issued(&self) -> u64 {
        self.counter
    }

    /// A source that has handed out nothing yet.
    #[must_use]
    pub fn new() -> (ids: Self)
        ensures
            ids.issued() == 0,
    {
        MessageIds { counter: 0 }
    }

    /// The next identifier, for the clock reading `timestamp_nanos`.
    pub fn next_id_at(&mut self, timestamp_nanos: u64) -> (id: MessageId)
        ensures
            id == message_id(timestamp_nanos, old(self).issued()),
            final(self).issued() == message_id(old(self).issued(), 1),
    {
        let id = generate_message_id(timestamp_nanos, self.counter);
        self.counter = self.counter.wrapping_add(1);
        id
    }

    /// The next identifier, stamped with the current time.
    pub fn next_id(&mut self) -> (id: MessageId)
        ensures
            exists|t: u64| id == message_id(t, old(self).issued()),
            final(self).issued() == message_id(old(self).issued(), 1),
    {
        let now = unix_nanos();
        self.next_id_at(now)
    }
}

/// A message on its way through the router.
#[derive(Debug, Clone)]
pub struct Message {
    /// Unique identifier.
    pub id: MessageId,
    /// Connection that published the message, if known.
    pub source: Option<String>,
    /// Target channel.
    pub channel: String,
    /// Optional event name.
    pub event: Option<String>,
    /// Payload, shared by every subscriber that receives the message.
    pub payload: Arc<Bytes>,
    /// Creation time in milliseconds since the Unix epoch.
    pub timestamp: u64,
}

impl Message {
    /// The payload bytes of the message.
    pub open spec fn payload_bytes(&self) -> Seq<u8> {
        contents(*self.payload)
    }

    /// A message for `channel` that carries `payload`, created at
    /// `timestamp_millis`, without source and without event name.
    #[must_use]
    pub fn new_at(id: MessageId, channel: &str, payload: Vec<u8>, timestamp_millis: u64) -> (m:
        Self)
        ensures
            m.id == id,
            m.source is None,
            m.channel@ == channel@,
            m.event is None,
            m.payload_bytes() == payload@,
            m.timestamp == timestamp_millis,
    {
        Message {
            id,
            source: None,
            channel: channel.to_owned(),
            event: None,
            payload: Arc::new(Bytes::from(payload)),
            timestamp: timestamp_millis,
        }
    }

    /// A message for `channel` that carries `payload`, stamped with the
    /// current time, without source and without event name.
    #[must_use]
    pub fn new(id: MessageId, channel: &str, payload: Vec<u8>) -> (m: Self)
        ensures
            m.id == id,
            m.source is None,
            m.channel@ == channel@,
            m.event is None,
            m.payload_bytes() == payload@,
    {
        Message::new_at(id, channel, payload, unix_millis())
    }

    /// The same message, marked as published by `source`.
    #[must_use]
    pub fn with_source(self, source: &str) -> (m: Self)
        ensures
            m.source matches Some(s) && s@ == source@,
            m.id == self.id,
            m.channel == self.channel,
            m.event == self.event,
            m.payload == self.payload,
            m.timestamp == self.timestamp,
    {
        let mut m = self;
        m.source = Some(source.to_owned());
        m
    }

    /// The same message, with the event name `event`.
    #[must_use]
    pub fn with_event(self, event: &str) -> (m: Self)
        ensures
            m.event matches Some(e) && e@ == event@,
            m.id == self.id,
            m.source == self.source,
            m.channel == self.channel,
            m.payload == self.payload,
            m.timestamp == self.timestamp,
    {
        let mut m = self;
        m.event = Some(event.to_owned());
        m
    }

    /// The payload buffer.
    #[must_use]
    pub fn payload(&self) -> (p: &Bytes)
        ensures
            contents(*p) == self.payload_bytes(),
    {
        &self.payload
    }

    /// The payload size in bytes.
    #[must_use]
    pub fn payload_size(&self) -> (n: usize)
        ensures
            n == self.payload_bytes().len(),
    {
        self.payload.len()
    }
}

/// A message paired with the connection it is to be delivered to.
#[derive(Debug, Clone)]
pub struct DeliveryMessage {
    /// The message to deliver.
    pub message: Message,
    /// Target connection.
    pub target: String,
}

impl DeliveryMessage {
    /// Pairs `message` with the connection `target`.
    #[must_use]
    pub fn new(message: Message, target: &str) -> (d: Self)
        ensures
            d.message == message,
            d.target@ == target@,
    {
        DeliveryMessage { message, target: target.to_owned() }
    }
}

} // verus!

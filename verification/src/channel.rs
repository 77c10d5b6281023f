//! Channels: named fan-out units.
//!
//! A channel owns a broadcast queue of fixed capacity and the list of the
//! connections subscribed to it. The list holds every connection at most once,
//! in the order in which they subscribed.

use crate::broadcast::max_ring_capacity;
use crate::message::Message;
use crate::message::MessageId;
use crate::text::copy_texts;
use crate::text::find_text;
use crate::text::insert_text;
use crate::text::lemma_with_text;
use crate::text::lemma_without;
use crate::text::remove_text;
use crate::text::texts;
use crate::text::with_text;
use crate::text::without;
use std::sync::Arc;
use tokio::sync::broadcast::error::SendError;
use tokio::sync::broadcast::Receiver;
use tokio::sync::broadcast::Sender;
use vstd::prelude::*;
use vstd::string::StrSliceExecFns;
use vstd::utf8::encode_utf8;
use vstd::utf8::is_ascii_chars;
use vstd::utf8::is_ascii_chars_encode_utf8;

verus! {

/// Longest channel name accepted, in bytes.
pub const MAX_CHANNEL_NAME_LENGTH: usize = 256;

/// Ring capacity of a channel made without an explicit one.
pub const DEFAULT_CHANNEL_CAPACITY: usize = 1024;

/// A channel name.
pub type ChannelId = String;

/// Whether `c` is a printable ASCII character: from the space up to `~`.
pub open spec fn is_printable(c: char) -> bool {
    ' ' <= c <= '~'
}

/// Whether every character of `name` is printable ASCII.
pub open spec fn all_printable(name: Seq<char>) -> bool {
    forall|i: int| 0 <= i < name.len() ==> is_printable(#[trigger] name[i])
}

/// What is wrong with a channel name, if anything. The rules are tried in
/// this order: the name is not empty; its UTF-8 form has at most 256 bytes; it
/// does not start with `$`, which is reserved; all its characters are
/// printable ASCII.
pub open spec fn channel_name_problem(name: Seq<char>) -> Option<Seq<char>> {
    if name.len() == 0 {
        Some("Channel name cannot be empty"@)
    } else if encode_utf8(name).len() > MAX_CHANNEL_NAME_LENGTH {
        Some("Channel name too long"@)
    } else if name[0] == '$' {
        Some("Channel names starting with '$' are reserved"@)
    } else if !all_printable(name) {
        Some("Channel name contains invalid characters"@)
    } else {
        None
    }
}

/// Whether `name` is a valid channel name: between 1 and 256 printable ASCII
/// characters, the first of which is not `$`.
pub open spec fn valid_channel_name(name: Seq<char>) -> bool {
    &&& 0 < name.len() <= MAX_CHANNEL_NAME_LENGTH
    &&& name[0] != '$'
    &&& all_printable(name)
}

/// A name is valid exactly when no rule finds a problem with it.
pub proof fn lemma_valid_iff_no_problem(name: Seq<char>)
    ensures
        valid_channel_name(name) <==> channel_name_problem(name) is None,
{
    if all_printable(name) {
        assert(is_ascii_chars(name)) by {
            assert forall|i: int| 0 <= i < name.len() implies '\0' <= #[trigger] name[i]
                <= '\u{7f}' by {
                assert(is_printable(name[i]));
            }
        }
        is_ascii_chars_encode_utf8(name);
    }
}

/// Checks a channel name against the naming rules and reports the first rule
/// it breaks.
pub fn validate_channel_name(name: &str) -> (r: Result<(), &'static str>)
    ensures
        match r {
            Ok(()) => channel_name_problem(name@) is None && valid_channel_name(name@),
            Err(problem) => channel_name_problem(name@) == Some(problem@),
        },
{
    proof {
        lemma_valid_iff_no_problem(name@);
    }
    if name.is_empty() {
        return Err("Channel name cannot be empty");
    }
    let n = name.as_bytes().len();
    if n > MAX_CHANNEL_NAME_LENGTH {
        return Err("Channel name too long");
    }
    if name.get_char(0) == '$' {
        return Err("Channel names starting with '$' are reserved");
    }
    if !name.is_ascii() {
        assert(!all_printable(name@)) by {
            if all_printable(name@) {
                assert forall|i: int| 0 <= i < name@.len() implies '\0' <= #[trigger] name@[i]
                    <= '\u{7f}' by {
                    assert(is_printable(name@[i]));
                }
            }
        }
        return Err("Channel name contains invalid characters");
    }
    proof {
        is_ascii_chars_encode_utf8(name@);
    }
    let mut i: usize = 0;
    while i < n
        invariant
            i <= n,
            n == name@.len(),
            0 < n <= MAX_CHANNEL_NAME_LENGTH,
            encode_utf8(name@).len() == n,
            name@[0] != '$',
            is_ascii_chars(name@),
            forall|k: int| 0 <= k < i ==> is_printable(#[trigger] name@[k]),
        decreases n - i,
    {
        let b = name.get_ascii(i);
        if b < 0x20 || b > 0x7e {
            assert(!all_printable(name@)) by {
                assert(!is_printable(name@[i as int]));
            }
            return Err("Channel name contains invalid characters");
        }
        assert(is_printable(name@[i as int]));
        i += 1;
    }
    Ok(())
}

/// The number of receivers that a send reached: the count the queue reported,
/// or 0 when it reported that there was none.
pub open spec fn delivered(outcome: Result<usize, SendError<Arc<Message>>>) -> usize {
    match outcome {
        Ok(n) => n,
        Err(_) => 0,
    }
}

/// Turns the outcome of a send into the number of receivers it reached.
pub fn delivered_count(outcome: Result<usize, SendError<Arc<Message>>>) -> (count: usize)
    ensures
        count == delivered(outcome),
{
    match outcome {
        Ok(n) => n,
        Err(_) => 0,
    }
}

/// A channel for publish/subscribe messaging.
#[derive(Debug)]
pub struct Channel {
    name: ChannelId,
    sender: Sender<Arc<Message>>,
    subscribers: Vec<String>,
    capacity: usize,
}

impl Channel {
    /// The channel's name.
    pub closed spec fn name_text(&self) -> Seq<char> {
        self.name@
    }

    /// The connections subscribed to the channel, in the order in which they
    /// subscribed.
    pub closed spec fn ids(&self) -> Seq<Seq<char>> {
        texts(self.subscribers@)
    }

    /// The ring capacity the channel was made with.
    pub closed spec fn ring_capacity(&self) -> usize {
        self.capacity
    }

    /// The channel's invariant: no connection is listed twice.
    pub closed spec fn wf(&self) -> bool {
        self.ids().no_duplicates()
    }

    /// Whether `connection_id` is subscribed.
    pub open spec fn has(&self, connection_id: Seq<char>) -> bool {
        self.ids().contains(connection_id)
    }

    /// A channel with the default ring capacity and no subscribers.
    #[must_use]
    pub fn new(name: &str) -> (channel: Self)
        ensures
            channel.wf(),
            channel.name_text() == name@,
            channel.ids() == Seq::<Seq<char>>::empty(),
            channel.ring_capacity() == DEFAULT_CHANNEL_CAPACITY,
    {
        Channel::with_capacity(name, DEFAULT_CHANNEL_CAPACITY)
    }

    /// A channel with the given ring capacity and no subscribers.
    #[must_use]
    pub fn with_capacity(name: &str, capacity: usize) -> (channel: Self)
        requires
            0 < capacity <= max_ring_capacity(),
        ensures
            channel.wf(),
            channel.name_text() == name@,
            channel.ids() == Seq::<Seq<char>>::empty(),
            channel.ring_capacity() == capacity,
    {
        let (sender, _) = tokio::sync::broadcast::channel(capacity);
        let channel = Channel {
            name: name.to_owned(),
            sender,
            subscribers: Vec::new(),
            capacity,
        };
        assert(channel.ids() =~= Seq::<Seq<char>>::empty());
        channel
    }

    /// The channel's name.
    #[must_use]
    pub fn name(&self) -> (name: &str)
        ensures
            name@ == self.name_text(),
    {
        self.name.as_str()
    }

    /// The number of subscribers.
    #[must_use]
    pub fn subscriber_count(&self) -> (count: usize)
        ensures
            count == self.ids().len(),
    {
        self.subscribers.len()
    }

    /// Whether `connection_id` is subscribed.
    #[must_use]
    pub fn is_subscribed(&self, connection_id: &str) -> (subscribed: bool)
        ensures
            subscribed == self.has(connection_id@),
    {
        match find_text(&self.subscribers, connection_id) {
            Some(i) => {
                assert(self.ids()[i as int] == connection_id@);
                true
            },
            None => false,
        }
    }

    /// Subscribes `connection_id` and returns a receiver for the messages
    /// published from now on. A connection that is subscribed already stays
    /// listed once and gets a fresh receiver.
    pub fn subscribe(&mut self, connection_id: &str) -> (receiver: Receiver<Arc<Message>>)
        requires
            old(self).wf(),
        ensures
            final(self).wf(),
            final(self).ids() == with_text(old(self).ids(), connection_id@),
            final(self).has(connection_id@),
            final(self).name_text() == old(self).name_text(),
            final(self).ring_capacity() == old(self).ring_capacity(),
    {
        proof {
            lemma_with_text(self.ids(), connection_id@);
        }
        let _ = insert_text(&mut self.subscribers, connection_id);
        self.sender.subscribe()
    }

    /// Unsubscribes `connection_id`; tells whether it was subscribed.
    /// Receivers that were handed out stay usable until they are dropped.
    pub fn unsubscribe(&mut self, connection_id: &str) -> (removed: bool)
        requires
            old(self).wf(),
        ensures
            final(self).wf(),
            removed == old(self).has(connection_id@),
            final(self).ids() == without(old(self).ids(), connection_id@),
            !final(self).has(connection_id@),
            final(self).name_text() == old(self).name_text(),
            final(self).ring_capacity() == old(self).ring_capacity(),
    {
        proof {
            lemma_without(self.ids(), connection_id@);
        }
        remove_text(&mut self.subscribers, connection_id)
    }

    /// Writes `message` once into the ring and returns the number of receivers
    /// that were alive at that moment; 0 when there was none.
    pub fn publish(&self, message: Message) -> (count: usize) {
        let shared = Arc::new(message);
        delivered_count(self.sender.send(shared))
    }

    /// Publishes `payload` as a new message on this channel, under the
    /// identifier `id`.
    pub fn publish_payload(&self, id: MessageId, payload: Vec<u8>) -> (count: usize) {
        let message = Message::new(id, self.name.as_str(), payload);
        self.publish(message)
    }

    /// The subscribed connections, in the order in which they subscribed.
    #[must_use]
    pub fn subscribers(&self) -> (list: Vec<String>)
        ensures
            texts(list@) == self.ids(),
    {
        copy_texts(&self.subscribers)
    }

    /// Whether the channel has no subscribers.
    #[must_use]
    pub fn is_empty(&self) -> (empty: bool)
        ensures
            empty == (self.ids().len() == 0),
    {
        self.subscribers.is_empty()
    }

    /// The ring capacity.
    #[must_use]
    pub fn capacity(&self) -> (capacity: usize)
        ensures
            capacity == self.ring_capacity(),
    {
        self.capacity
    }
}

} // verus!

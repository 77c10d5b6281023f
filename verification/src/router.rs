//! The router: the registry of channels and the index of subscriptions.
//!
//! The router owns every channel and knows, for each connection, the channels
//! it is subscribed to. Its mathematical state is a
//! [`RouterState`](crate::routing::RouterState); each operation here is proved
//! to carry out the state change of the same name there.

use crate::broadcast::max_ring_capacity;
use crate::channel::validate_channel_name;
use crate::channel::Channel;
use crate::message::Message;
use crate::message::message_id;
use crate::message::MessageId;
use crate::message::MessageIds;
use crate::presence::Presence;
use crate::presence::PresenceState;
use crate::presence::is_member;
use crate::presence::views;
use crate::presence::PresenceStateView;
use crate::registry::channel_entries;
use crate::registry::connection_sets;
use crate::registry::index_get;
use crate::registry::index_insert;
use crate::registry::index_keys;
use crate::registry::index_len;
use crate::registry::index_new;
use crate::registry::index_remove;
use crate::registry::index_set;
use crate::registry::names_contains;
use crate::registry::names_insert;
use crate::registry::names_len;
use crate::registry::names_list;
use crate::registry::names_new;
use crate::registry::names_remove;
use crate::registry::registry_contains;
use crate::registry::registry_entry;
use crate::registry::registry_get;
use crate::registry::registry_insert;
use crate::registry::registry_keys;
use crate::registry::registry_len;
use crate::registry::registry_new;
use crate::registry::registry_remove;
use crate::registry::set_members;
use crate::routing::lemma_presence_keeps_indices;
use crate::routing::lemma_subscriptions_step;
use crate::routing::saturated;
use crate::routing::subscriptions_among;
use crate::routing::lemma_subscribe_keeps_indices;
use crate::routing::lemma_unsubscribe_all_keeps_indices;
use crate::routing::lemma_unsubscribe_keeps_indices;
use crate::text::texts;
use crate::routing::ChannelState;
use crate::routing::Limits;
use crate::routing::RouterErrorView;
use crate::routing::RouterState;
use dashmap::DashMap;
use dashmap::DashSet;
use std::sync::Arc;
use tokio::sync::broadcast::Receiver;
use vstd::prelude::*;

verus! {

/// Why a router operation failed.
#[derive(Debug)]
pub enum RouterError {
    /// The channel name breaks a naming rule; the text says which.
    InvalidChannel(&'static str),
    /// The channel does not exist and may not be created.
    ChannelNotFound(String),
    /// The connection is not subscribed to the channel.
    NotSubscribed(String),
    /// The connection is subscribed to the channel already.
    AlreadySubscribed(String),
    /// The connection holds as many subscriptions as it may.
    MaxSubscriptionsReached,
    /// Something went wrong inside the broker.
    Internal(String),
}

impl View for RouterError {
    type V = RouterErrorView;

    open spec fn view(&self) -> RouterErrorView {
        match *self {
            RouterError::InvalidChannel(problem) => RouterErrorView::InvalidChannel(problem@),
            RouterError::ChannelNotFound(name) => RouterErrorView::ChannelNotFound(name@),
            RouterError::NotSubscribed(name) => RouterErrorView::NotSubscribed(name@),
            RouterError::AlreadySubscribed(name) => RouterErrorView::AlreadySubscribed(name@),
            RouterError::MaxSubscriptionsReached => RouterErrorView::MaxSubscriptionsReached,
            RouterError::Internal(what) => RouterErrorView::Internal(what@),
        }
    }
}

impl RouterErrorView {
    /// The message of an error, as shown to clients.
    pub open spec fn text(self) -> Seq<char> {
        match self {
            RouterErrorView::InvalidChannel(problem) => "Invalid channel name: "@ + problem,
            RouterErrorView::ChannelNotFound(name) => "Channel not found: "@ + name,
            RouterErrorView::NotSubscribed(name) => "Not subscribed to channel: "@ + name,
            RouterErrorView::AlreadySubscribed(name) => "Already subscribed to channel: "@ + name,
            RouterErrorView::MaxSubscriptionsReached => "Maximum subscriptions reached"@,
            RouterErrorView::Internal(what) => "Internal error: "@ + what,
        }
    }
}

impl RouterError {
    /// The message of the error, as shown to clients.
    #[must_use]
    pub fn to_string(&self) -> (text: String)
        ensures
            text@ == self@.text(),
    {
        match self {
            RouterError::InvalidChannel(problem) => {
                "Invalid channel name: ".to_owned().concat(problem)
            },
            RouterError::ChannelNotFound(name) => {
                "Channel not found: ".to_owned().concat(name.as_str())
            },
            RouterError::NotSubscribed(name) => {
                "Not subscribed to channel: ".to_owned().concat(name.as_str())
            },
            RouterError::AlreadySubscribed(name) => {
                "Already subscribed to channel: ".to_owned().concat(name.as_str())
            },
            RouterError::MaxSubscriptionsReached => "Maximum subscriptions reached".to_owned(),
            RouterError::Internal(what) => "Internal error: ".to_owned().concat(what.as_str()),
        }
    }
}

/// The limits and switches of a router.
#[derive(Debug, Clone)]
pub struct RouterConfig {
    /// Most channels the registry is meant to hold.
    pub max_channels: usize,
    /// Most subscriptions that one connection may hold.
    pub max_subscriptions_per_connection: usize,
    /// Ring capacity of each channel's broadcast queue.
    pub channel_capacity: usize,
    /// Whether subscribing to a channel that does not exist creates it.
    pub auto_create_channels: bool,
    /// Whether a channel is deleted when its last subscriber leaves.
    pub auto_delete_empty_channels: bool,
}

impl RouterConfig {
    /// The limits and switches that the subscription operations read.
    pub open spec fn limits(&self) -> Limits {
        Limits {
            max_subscriptions: self.max_subscriptions_per_connection,
            auto_create: self.auto_create_channels,
            auto_delete: self.auto_delete_empty_channels,
        }
    }

    /// Whether the broadcast queue accepts the configured ring capacity: it
    /// is neither 0 nor above half of the largest `usize`.
    pub open spec fn capacity_accepted(&self) -> bool {
        0 < self.channel_capacity <= max_ring_capacity()
    }

    /// Tells whether the broadcast queue accepts the configured ring capacity.
    #[must_use]
    pub fn is_capacity_accepted(&self) -> (ok: bool)
        ensures
            ok == self.capacity_accepted(),
    {
        0 < self.channel_capacity && self.channel_capacity <= usize::MAX / 2
    }
}

impl Default for RouterConfig {
    fn default() -> (config: Self)
        ensures
            config.max_channels == 10_000,
            config.max_subscriptions_per_connection == 100,
            config.channel_capacity == 1024,
            config.auto_create_channels,
            config.auto_delete_empty_channels,
            config.capacity_accepted(),
    {
        RouterConfig {
            max_channels: 10_000,
            max_subscriptions_per_connection: 100,
            channel_capacity: 1024,
            auto_create_channels: true,
            auto_delete_empty_channels: true,
        }
    }
}

/// A channel of the registry together with its presence tracker.
#[derive(Debug)]
pub struct ChannelEntry {
    /// The channel.
    pub channel: Channel,
    /// Who is present in the channel.
    pub presence: Presence,
}

impl ChannelEntry {
    /// The entry's invariant: channel and presence tracker are well formed.
    pub open spec fn wf(&self) -> bool {
        self.channel.wf() && self.presence.wf()
    }

    /// The mathematical value of the entry.
    pub open spec fn state(&self) -> ChannelState {
        ChannelState { subscribers: self.channel.ids(), presence: self.presence@ }
    }

    /// An entry for a new channel: no subscribers, nobody present.
    pub fn new(name: &str, capacity: usize) -> (entry: Self)
        requires
            0 < capacity <= max_ring_capacity(),
        ensures
            entry.wf(),
            entry.channel.name_text() == name@,
            entry.channel.ring_capacity() == capacity,
            entry.state() == (ChannelState {
                subscribers: Seq::empty(),
                presence: Seq::empty(),
            }),
    {
        ChannelEntry { channel: Channel::with_capacity(name, capacity), presence: Presence::new() }
    }
}

/// Counts that describe a router at one moment.
#[derive(Debug, Clone)]
pub struct RouterStats {
    /// Number of channels in the registry.
    pub channel_count: usize,
    /// Number of connections known to the connection index.
    pub connection_count: usize,
    /// Number of subscriptions, over all connections.
    pub total_subscriptions: usize,
}

/// The central message router.
pub struct Router {
    channels: DashMap<String, ChannelEntry>,
    subscriptions: DashMap<String, DashSet<String>>,
    config: RouterConfig,
    ids: MessageIds,
}

impl View for Router {
    type V = RouterState;

    closed spec fn view(&self) -> RouterState {
        RouterState {
            channels: Map::new(
                |name: Seq<char>| channel_entries(self.channels).contains_key(name),
                |name: Seq<char>| channel_entries(self.channels)[name].state(),
            ),
            connections: Map::new(
                |connection: Seq<char>| connection_sets(self.subscriptions).contains_key(connection),
                |connection: Seq<char>| set_members(connection_sets(self.subscriptions)[connection]),
            ),
        }
    }
}

impl Router {
    /// The configuration the router was made with.
    pub closed spec fn settings(&self) -> RouterConfig {
        self.config
    }

    /// The limits and switches that the subscription operations read.
    pub open spec fn limits(&self) -> Limits {
        self.settings().limits()
    }

    /// How many message identifiers the router has handed out, modulo 2^64:
    /// the counter that goes into the next identifier.
    pub closed spec fn issued(&self) -> u64 {
        self.ids.issued()
    }

    /// What holds of the stored entries at every moment, also in the middle of
    /// an operation: each channel entry is well formed and stored under its
    /// own name, and every collection is finite.
    closed spec fn entries_ok(&self) -> bool {
        &&& channel_entries(self.channels).dom().finite()
        &&& connection_sets(self.subscriptions).dom().finite()
        &&& forall|name: Seq<char>| #[trigger]
            channel_entries(self.channels).contains_key(name) ==> {
                &&& channel_entries(self.channels)[name].wf()
                &&& channel_entries(self.channels)[name].channel.name_text() == name
                &&& channel_entries(self.channels)[name].channel.ring_capacity()
                    == self.config.channel_capacity
            }
        &&& forall|connection: Seq<char>| #[trigger]
            connection_sets(self.subscriptions).contains_key(connection) ==> set_members(
                connection_sets(self.subscriptions)[connection],
            ).finite()
        &&& self.config.capacity_accepted()
    }

    /// The router's invariant: the stored entries are well formed, the two
    /// indices agree, and a router that deletes empty channels has none.
    pub closed spec fn wf(&self) -> bool {
        &&& self.entries_ok()
        &&& self@.wf()
        &&& self.config.auto_delete_empty_channels ==> self@.no_idle_channel()
    }

    /// What the invariant says of the router's state.
    pub proof fn lemma_invariant(&self)
        requires
            self.wf(),
        ensures
            self@.wf(),
            self.settings().auto_delete_empty_channels ==> self@.no_idle_channel(),
            self.settings().capacity_accepted(),
            self@.channels.dom().finite(),
            self@.connections.dom().finite(),
            forall|connection: Seq<char>| #[trigger]
                self@.connections.contains_key(connection)
                    ==> self@.connections[connection].finite(),
    {
        assert(self@.channels.dom() =~= channel_entries(self.channels).dom());
        assert(self@.connections.dom() =~= connection_sets(self.subscriptions).dom());
    }

    /// A router with the default configuration, without channels and without
    /// connections.
    #[must_use]
    pub fn new() -> (router: Self)
        ensures
            router.wf(),
            router@ == RouterState::empty(),
            router.issued() == 0,
            router.settings().max_channels == 10_000,
            router.settings().max_subscriptions_per_connection == 100,
            router.settings().channel_capacity == 1024,
            router.settings().auto_create_channels,
            router.settings().auto_delete_empty_channels,
    {
        Router::with_config(RouterConfig::default())
    }

    /// A router with the given configuration, without channels and without
    /// connections. The broadcast queue must accept the ring capacity.
    #[must_use]
    pub fn with_config(config: RouterConfig) -> (router: Self)
        requires
            config.capacity_accepted(),
        ensures
            router.wf(),
            router@ == RouterState::empty(),
            router.settings() == config,
            router.issued() == 0,
    {
        let router = Router {
            channels: registry_new(),
            subscriptions: index_new(),
            config,
            ids: MessageIds::new(),
        };
        proof {
            assert(router@.channels =~= Map::empty());
            assert(router@.connections =~= Map::empty());
        }
        router
    }

    /// The number of channels, the number of connections that the connection
    /// index knows, and the number of subscriptions over all connections; the
    /// last one stops at the largest `usize`.
    #[must_use]
    pub fn stats(&self) -> (stats: RouterStats)
        requires
            self.wf(),
        ensures
            stats.channel_count == self@.channels.dom().len(),
            stats.connection_count == self@.connections.dom().len(),
            stats.total_subscriptions == saturated(self@.subscriptions().len()),
    {
        proof {
            self.lemma_invariant();
            assert(self@.channels.dom() =~= channel_entries(self.channels).dom());
            assert(self@.connections.dom() =~= connection_sets(self.subscriptions).dom());
        }
        let connections = index_keys(&self.subscriptions);
        let ghost listed = texts(connections@);
        let mut total: usize = 0;
        let mut i: usize = 0;
        proof {
            assert(subscriptions_among(self@, listed.take(0)) =~= Set::empty());
        }
        while i < connections.len()
            invariant
                i <= connections.len(),
                self.wf(),
                listed == texts(connections@),
                listed.no_duplicates(),
                forall|k: Seq<char>|
                    listed.contains(k) <==> connection_sets(self.subscriptions).contains_key(k),
                subscriptions_among(self@, listed.take(i as int)).finite(),
                total == saturated(subscriptions_among(self@, listed.take(i as int)).len()),
            decreases connections.len() - i,
        {
            let held = match index_get(&self.subscriptions, connections[i].as_str()) {
                Some(guard) => names_len(index_set(&guard)),
                None => 0,
            };
            proof {
                self.lemma_invariant();
                assert(listed[i as int] == connections[i as int]@);
                assert(listed.contains(listed[i as int]));
                assert(held == self@.channels_of(listed[i as int]).len());
                lemma_subscriptions_step(self@, listed, i as int);
            }
            total = if held > usize::MAX - total {
                usize::MAX
            } else {
                total + held
            };
            i += 1;
        }
        proof {
            assert(listed.take(i as int) =~= listed);
            assert(subscriptions_among(self@, listed) =~= self@.subscriptions());
        }
        RouterStats {
            channel_count: registry_len(&self.channels),
            connection_count: index_len(&self.subscriptions),
            total_subscriptions: total,
        }
    }

    /// Whether a channel of that name exists.
    #[must_use]
    pub fn channel_exists(&self, channel_name: &str) -> (exists_: bool)
        ensures
            exists_ == self@.channels.contains_key(channel_name@),
    {
        registry_contains(&self.channels, channel_name)
    }

    /// The number of subscribers of a channel; 0 for a channel that does not
    /// exist.
    #[must_use]
    pub fn subscriber_count(&self, channel_name: &str) -> (count: usize)
        ensures
            count == self@.subscribers_of(channel_name@).len(),
    {
        match registry_get(&self.channels, channel_name) {
            Some(guard) => registry_entry(&guard).channel.subscriber_count(),
            None => 0,
        }
    }

    /// The names of all channels, each once, in no particular order.
    #[must_use]
    pub fn channel_names(&self) -> (names: Vec<String>)
        ensures
            texts(names@).no_duplicates(),
            forall|name: Seq<char>| texts(names@).contains(name) <==> self@.channels.contains_key(name),
    {
        registry_keys(&self.channels)
    }

    /// The channels that a connection is subscribed to, each once, in no
    /// particular order; none for a connection the router does not know.
    #[must_use]
    pub fn connection_channels(&self, connection_id: &str) -> (names: Vec<String>)
        ensures
            texts(names@).no_duplicates(),
            forall|name: Seq<char>|
                texts(names@).contains(name) <==> self@.channels_of(connection_id@).contains(name),
    {
        match index_get(&self.subscriptions, connection_id) {
            Some(guard) => names_list(index_set(&guard)),
            None => {
                let names: Vec<String> = Vec::new();
                assert forall|name: Seq<char>| !texts(names@).contains(name) by {}
                names
            },
        }
    }

    /// A copy of the presence states of a channel, in the order in which the
    /// members joined; none for a channel that does not exist.
    #[must_use]
    pub fn presence_snapshot(&self, channel_name: &str) -> (list: Vec<PresenceState>)
        ensures
            views(list@) == self@.presence_of(channel_name@),
    {
        match registry_get(&self.channels, channel_name) {
            Some(guard) => registry_entry(&guard).presence.snapshot(),
            None => {
                let list: Vec<PresenceState> = Vec::new();
                assert(views(list@) =~= Seq::<PresenceStateView>::empty());
                list
            },
        }
    }

    /// Publishes a message to its channel and returns the number of receivers
    /// that were alive at that moment. A message for a channel that does not
    /// exist goes nowhere, and the count is 0. The state does not change.
    pub fn publish(&self, message: Message) -> (count: usize)
        ensures
            !self@.channels.contains_key(message.channel@) ==> count == 0,
    {
        match registry_get(&self.channels, message.channel.as_str()) {
            Some(guard) => registry_entry(&guard).channel.publish(message),
            None => 0,
        }
    }

    /// Publishes `payload` to a channel as a new message with a fresh
    /// identifier, and returns the number of receivers that were alive at that
    /// moment; 0 for a channel that does not exist. Subscriptions, channels
    /// and presence do not change.
    pub fn publish_to(&mut self, channel_name: &str, payload: Vec<u8>) -> (count: usize)
        ensures
            final(self)@ == old(self)@,
            final(self).settings() == old(self).settings(),
            final(self).issued() == message_id(old(self).issued(), 1),
            old(self).wf() ==> final(self).wf(),
            !old(self)@.channels.contains_key(channel_name@) ==> count == 0,
    {
        let id = self.ids.next_id();
        let message = Message::new(id, channel_name, payload);
        self.publish(message)
    }

    /// A fresh message identifier: the sum of a reading of the clock, in
    /// nanoseconds, and the number of identifiers handed out so far, which
    /// goes up by one. Subscriptions, channels and presence do not change.
    pub fn next_message_id(&mut self) -> (id: MessageId)
        ensures
            exists|timestamp_nanos: u64| id == message_id(timestamp_nanos, old(self).issued()),
            final(self).issued() == message_id(old(self).issued(), 1),
            final(self)@ == old(self)@,
            final(self).settings() == old(self).settings(),
            old(self).wf() ==> final(self).wf(),
    {
        let ghost before = self.ids.issued();
        let id = self.ids.next_id();
        proof {
            let reading = choose|t: u64| id == message_id(t, before);
            assert(id == message_id(reading, old(self).issued()));
        }
        id
    }

    /// Puts the set of a connection back into the connection index.
    fn store_names(&mut self, connection: String, names: DashSet<String>)
        requires
            old(self).entries_ok(),
            set_members(names).finite(),
        ensures
            final(self).entries_ok(),
            final(self)@.channels == old(self)@.channels,
            final(self)@.connections == old(self)@.connections.insert(
                connection@,
                set_members(names),
            ),
            final(self).config == old(self).config,
            final(self).ids == old(self).ids,
    {
        let _ = index_insert(&mut self.subscriptions, connection, names);
        proof {
            assert(self@.channels =~= old(self)@.channels);
            assert(self@.connections =~= old(self)@.connections.insert(
                connection@,
                set_members(names),
            ));
        }
    }

    /// Subscribes a connection to a channel and returns a receiver for the
    /// messages published to the channel from now on.
    ///
    /// The request fails, in this order of precedence, when the name is not a
    /// valid channel name, when the connection holds as many subscriptions as
    /// the configuration allows, when it is subscribed to the channel already,
    /// and when the channel does not exist and may not be created.
    pub fn subscribe(&mut self, connection_id: &str, channel_name: &str) -> (r: Result<
        Receiver<Arc<Message>>,
        RouterError,
    >)
        requires
            old(self).wf(),
        ensures
            final(self).wf(),
            final(self).settings() == old(self).settings(),
            final(self).issued() == old(self).issued(),
            final(self)@ == old(self)@.subscribe(old(self).limits(), connection_id@, channel_name@),
            match r {
                Ok(_) => old(self)@.subscribe_error(
                    old(self).limits(),
                    connection_id@,
                    channel_name@,
                ) is None,
                Err(e) => old(self)@.subscribe_error(
                    old(self).limits(),
                    connection_id@,
                    channel_name@,
                ) == Some(e@),
            },
    {
        proof {
            lemma_subscribe_keeps_indices(
                self@,
                self.limits(),
                connection_id@,
                channel_name@,
            );
        }
        match validate_channel_name(channel_name) {
            Err(problem) => {
                return Err(RouterError::InvalidChannel(problem));
            },
            Ok(()) => {},
        }
        let ghost before = self@;
        let mut names = match index_remove(&mut self.subscriptions, connection_id) {
            Some(pair) => pair.1,
            None => names_new(),
        };
        let ghost expected = before.subscribe(old(self).limits(), connection_id@, channel_name@);
        proof {
            assert(set_members(names) == before.channels_of(connection_id@));
            assert(self.entries_ok());
            assert(self@.channels =~= before.channels);
            assert(self@.connections =~= before.connections.remove(connection_id@));
        }
        if names_len(&names) >= self.config.max_subscriptions_per_connection {
            self.store_names(connection_id.to_owned(), names);
            proof {
                assert(self@.connections =~= expected.connections);
            }
            return Err(RouterError::MaxSubscriptionsReached);
        }
        if names_contains(&names, channel_name) {
            self.store_names(connection_id.to_owned(), names);
            proof {
                assert(self@.connections =~= expected.connections);
            }
            return Err(RouterError::AlreadySubscribed(channel_name.to_owned()));
        }
        let mut entry = match registry_remove(&mut self.channels, channel_name) {
            Some(pair) => pair.1,
            None => {
                if !self.config.auto_create_channels {
                    self.store_names(connection_id.to_owned(), names);
                    proof {
                        assert(self@.channels =~= before.channels);
                        assert(self@.connections =~= expected.connections);
                    }
                    return Err(RouterError::ChannelNotFound(channel_name.to_owned()));
                }
                ChannelEntry::new(channel_name, self.config.channel_capacity)
            },
        };
        assert(entry.channel.ids() == before.subscribers_of(channel_name@));
        assert(entry.presence@ == before.presence_of(channel_name@));
        let receiver = entry.channel.subscribe(connection_id);
        let _ = names_insert(&mut names, channel_name.to_owned());
        let _ = registry_insert(&mut self.channels, channel_name.to_owned(), entry);
        let _ = index_insert(&mut self.subscriptions, connection_id.to_owned(), names);
        proof {
            let after = before.subscribe(old(self).limits(), connection_id@, channel_name@);
            assert(self@.channels =~= after.channels);
            assert(self@.connections =~= after.connections);
        }
        Ok(receiver)
    }

    /// Takes a connection out of a channel of the registry: it leaves the
    /// subscribers and the present members, and the channel is deleted when
    /// that empties it and empty channels are to be deleted.
    fn detach(&mut self, connection_id: &str, channel_name: &str)
        requires
            old(self).entries_ok(),
        ensures
            final(self).entries_ok(),
            final(self).config == old(self).config,
            final(self).ids == old(self).ids,
            final(self)@.connections == old(self)@.connections,
            final(self)@.channels == old(self)@.channels_without(
                old(self).config.auto_delete_empty_channels,
                channel_name@,
                connection_id@,
            ),
    {
        let ghost before = self@;
        match registry_remove(&mut self.channels, channel_name) {
            Some(pair) => {
                let key = pair.0;
                let mut entry = pair.1;
                let _ = entry.channel.unsubscribe(connection_id);
                let _ = entry.presence.leave(connection_id);
                if self.config.auto_delete_empty_channels && entry.channel.is_empty() {
                    proof {
                        assert(self@.channels =~= before.channels_without(
                            true,
                            channel_name@,
                            connection_id@,
                        ));
                    }
                } else {
                    let _ = registry_insert(&mut self.channels, key, entry);
                    proof {
                        assert(self@.channels =~= before.channels_without(
                            self.config.auto_delete_empty_channels,
                            channel_name@,
                            connection_id@,
                        ));
                    }
                }
            },
            None => {
                assert(self@.channels =~= before.channels);
            },
        }
        assert(self@.connections =~= before.connections);
    }

    /// Unsubscribes a connection from a channel. The connection also leaves
    /// the channel's presence, and the channel is deleted when it is left
    /// without subscribers and empty channels are to be deleted.
    ///
    /// The request fails exactly when the connection is not subscribed to the
    /// channel; nothing changes then.
    pub fn unsubscribe(&mut self, connection_id: &str, channel_name: &str) -> (r: Result<
        (),
        RouterError,
    >)
        requires
            old(self).wf(),
        ensures
            final(self).wf(),
            final(self).settings() == old(self).settings(),
            final(self).issued() == old(self).issued(),
            final(self)@ == old(self)@.unsubscribe(
                old(self).limits(),
                connection_id@,
                channel_name@,
            ),
            match r {
                Ok(()) => old(self)@.unsubscribe_error(connection_id@, channel_name@) is None,
                Err(e) => old(self)@.unsubscribe_error(connection_id@, channel_name@) == Some(e@),
            },
    {
        proof {
            lemma_unsubscribe_keeps_indices(
                self@,
                self.limits(),
                connection_id@,
                channel_name@,
            );
        }
        let ghost before = self@;
        match index_remove(&mut self.subscriptions, connection_id) {
            None => {
                proof {
                    assert(self@.channels =~= before.channels);
                    assert(self@.connections =~= before.connections);
                }
                Err(RouterError::NotSubscribed(channel_name.to_owned()))
            },
            Some(pair) => {
                let key = pair.0;
                let mut names = pair.1;
                let taken = names_remove(&mut names, channel_name);
                proof {
                    assert(self.entries_ok());
                    assert(self@.channels =~= before.channels);
                    assert(self@.connections =~= before.connections.remove(connection_id@));
                }
                self.store_names(key, names);
                match taken {
                    None => {
                        proof {
                            assert(set_members(names) =~= before.connections[connection_id@]);
                            assert(self@.connections =~= before.connections);
                        }
                        Err(RouterError::NotSubscribed(channel_name.to_owned()))
                    },
                    Some(_) => {
                        proof {
                            assert(self@.connections =~= before.connections.insert(
                                connection_id@,
                                before.connections[connection_id@].remove(channel_name@),
                            ));
                        }
                        self.detach(connection_id, channel_name);
                        proof {
                            let mid = RouterState {
                                channels: before.channels,
                                connections: before.connections.insert(
                                    connection_id@,
                                    before.connections[connection_id@].remove(channel_name@),
                                ),
                            };
                            assert(mid.channels_without(
                                self.config.auto_delete_empty_channels,
                                channel_name@,
                                connection_id@,
                            ) == before.channels_without(
                                self.config.auto_delete_empty_channels,
                                channel_name@,
                                connection_id@,
                            ));
                        }
                        Ok(())
                    },
                }
            },
        }
    }

    /// Unsubscribes a connection from every channel it is subscribed to. The
    /// connection leaves the presence of each of them, the channels that are
    /// left without subscribers are deleted when empty channels are to be
    /// deleted, and the connection index forgets the connection.
    pub fn unsubscribe_all(&mut self, connection_id: &str)
        requires
            old(self).wf(),
        ensures
            final(self).wf(),
            final(self).settings() == old(self).settings(),
            final(self).issued() == old(self).issued(),
            final(self)@ == old(self)@.unsubscribe_all(old(self).limits(), connection_id@),
    {
        proof {
            lemma_unsubscribe_all_keeps_indices(self@, self.limits(), connection_id@);
        }
        let ghost before = self@;
        let ghost auto_delete = self.config.auto_delete_empty_channels;
        match index_remove(&mut self.subscriptions, connection_id) {
            None => {
                proof {
                    assert(self@.channels =~= before.channels);
                    assert(self@.connections =~= before.connections);
                }
            },
            Some(pair) => {
                let names = names_list(&pair.1);
                let ghost held = before.connections[connection_id@];
                proof {
                    assert(self@.channels =~= before.channels);
                    assert(self@.connections =~= before.connections.remove(connection_id@));
                    assert(self@.channels =~= before.channels_without_all(
                        auto_delete,
                        Set::new(|n: Seq<char>| texts(names@).take(0).contains(n)),
                        connection_id@,
                    ));
                }
                let mut i: usize = 0;
                while i < names.len()
                    invariant
                        i <= names.len(),
                        self.entries_ok(),
                        self.config == old(self).config,
                        self.ids == old(self).ids,
                        auto_delete == self.config.auto_delete_empty_channels,
                        texts(names@).no_duplicates(),
                        self@.connections == before.connections.remove(connection_id@),
                        self@.channels == before.channels_without_all(
                            auto_delete,
                            Set::new(|n: Seq<char>| texts(names@).take(i as int).contains(n)),
                            connection_id@,
                        ),
                    decreases names.len() - i,
                {
                    let ghost current = self@;
                    let ghost done = Set::new(
                        |n: Seq<char>| texts(names@).take(i as int).contains(n),
                    );
                    let ghost next = Set::new(
                        |n: Seq<char>| texts(names@).take(i + 1).contains(n),
                    );
                    self.detach(connection_id, names[i].as_str());
                    proof {
                        let name = names[i as int]@;
                        let all = texts(names@);
                        let seen = all.take(i as int);
                        let grown = all.take(i + 1);
                        assert(all[i as int] == name);
                        assert(!done.contains(name)) by {
                            if seen.contains(name) {
                                let k = choose|k: int| 0 <= k < seen.len() && seen[k] == name;
                                assert(all[k] == all[i as int]);
                            }
                        }
                        assert forall|n: Seq<char>| next.contains(n) <==> done.contains(n) || n
                            == name by {
                            if grown.contains(n) {
                                let k = choose|k: int| 0 <= k < grown.len() && grown[k] == n;
                                if k < i {
                                    assert(seen[k] == n);
                                }
                            }
                            if seen.contains(n) {
                                let k = choose|k: int| 0 <= k < seen.len() && seen[k] == n;
                                assert(grown[k] == n);
                            }
                            if n == name {
                                assert(grown[i as int] == n);
                            }
                        }
                        assert(self@.channels =~= before.channels_without_all(
                            auto_delete,
                            next,
                            connection_id@,
                        ));
                    }
                    i += 1;
                }
                proof {
                    let all = texts(names@);
                    assert(all.take(i as int) =~= all);
                    let done = Set::new(|n: Seq<char>| all.take(i as int).contains(n));
                    assert(done =~= held);
                    assert(self@.channels == before.unsubscribe_all(
                        old(self).limits(),
                        connection_id@,
                    ).channels);
                }
            },
        }
    }

    /// Adds a connection to the presence of a channel at time `now`, or
    /// replaces its state there; tells whether it is a new member. Nothing
    /// happens, and the answer is `false`, when the channel does not exist.
    pub fn presence_join_at(
        &mut self,
        connection_id: &str,
        channel_name: &str,
        data: Option<serde_json::Value>,
        now: u64,
    ) -> (is_new: bool)
        requires
            old(self).wf(),
        ensures
            final(self).wf(),
            final(self).settings() == old(self).settings(),
            final(self).issued() == old(self).issued(),
            final(self)@ == old(self)@.presence_join(connection_id@, channel_name@, data, now),
            is_new == (old(self)@.channels.contains_key(channel_name@) && !is_member(
                old(self)@.presence_of(channel_name@),
                connection_id@,
            )),
    {
        proof {
            lemma_presence_keeps_indices(self@, connection_id@, channel_name@, data, now);
        }
        let ghost before = self@;
        match registry_remove(&mut self.channels, channel_name) {
            Some(pair) => {
                let mut entry = pair.1;
                let is_new = entry.presence.join_at(connection_id, data, now);
                let _ = registry_insert(&mut self.channels, pair.0, entry);
                proof {
                    let after = before.presence_join(connection_id@, channel_name@, data, now);
                    assert(self@.channels =~= after.channels);
                    assert(self@.connections =~= after.connections);
                }
                is_new
            },
            None => {
                proof {
                    assert(self@.channels =~= before.channels);
                    assert(self@.connections =~= before.connections);
                }
                false
            },
        }
    }

    /// Adds a connection to the presence of a channel now, or replaces its
    /// state there; tells whether it is a new member. Nothing happens, and the
    /// answer is `false`, when the channel does not exist.
    pub fn presence_join(
        &mut self,
        connection_id: &str,
        channel_name: &str,
        data: Option<serde_json::Value>,
    ) -> (is_new: bool)
        requires
            old(self).wf(),
        ensures
            final(self).wf(),
            final(self).settings() == old(self).settings(),
            final(self).issued() == old(self).issued(),
            exists|now: u64|
                final(self)@ == old(self)@.presence_join(connection_id@, channel_name@, data, now),
            is_new == (old(self)@.channels.contains_key(channel_name@) && !is_member(
                old(self)@.presence_of(channel_name@),
                connection_id@,
            )),
    {
        self.presence_join_at(connection_id, channel_name, data, crate::clock::unix_millis())
    }

    /// Removes a connection from the presence of a channel and returns its
    /// state, if it was present. Nothing happens, and the answer is `None`,
    /// when the channel does not exist.
    pub fn presence_leave(&mut self, connection_id: &str, channel_name: &str) -> (state: Option<
        PresenceState,
    >)
        requires
            old(self).wf(),
        ensures
            final(self).wf(),
            final(self).settings() == old(self).settings(),
            final(self).issued() == old(self).issued(),
            final(self)@ == old(self)@.presence_leave(connection_id@, channel_name@),
            match state {
                Some(s) => is_member(old(self)@.presence_of(channel_name@), connection_id@) && s@
                    == old(self)@.presence_of(channel_name@)[crate::presence::member_index(
                    old(self)@.presence_of(channel_name@),
                    connection_id@,
                )],
                None => !is_member(old(self)@.presence_of(channel_name@), connection_id@),
            },
    {
        proof {
            lemma_presence_keeps_indices(self@, connection_id@, channel_name@, None, 0);
        }
        let ghost before = self@;
        match registry_remove(&mut self.channels, channel_name) {
            Some(pair) => {
                let mut entry = pair.1;
                let state = entry.presence.leave(connection_id);
                let _ = registry_insert(&mut self.channels, pair.0, entry);
                proof {
                    let after = before.presence_leave(connection_id@, channel_name@);
                    assert(self@.channels =~= after.channels);
                    assert(self@.connections =~= after.connections);
                }
                state
            },
            None => {
                proof {
                    assert(self@.channels =~= before.channels);
                    assert(self@.connections =~= before.connections);
                    assert(!crate::presence::member_ids(
                        Seq::<PresenceStateView>::empty(),
                    ).contains(connection_id@));
                }
                None
            },
        }
    }
}

impl Default for Router {
    fn default() -> (router: Self)
        ensures
            router.wf(),
            router@ == RouterState::empty(),
    {
        Router::new()
    }
}

} // verus!

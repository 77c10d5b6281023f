//! The router's state as a mathematical value, and the laws of its operations.
//!
//! A [`RouterState`] holds two indices: for each channel its subscribers and
//! its present members, and for each connection the set of channels it is
//! subscribed to. The operations of the router are functions from state to
//! state; the laws at the end of this module say what they preserve.

use crate::channel::channel_name_problem;
use crate::channel::valid_channel_name;
use crate::presence::joined;
use crate::presence::left;
use crate::presence::lemma_membership;
use crate::presence::member_ids;
use crate::presence::PresenceStateView;
use crate::text::lemma_with_text;
use crate::text::lemma_without;
use crate::text::with_text;
use crate::text::without;
use vstd::prelude::*;

verus! {

/// The limits and switches of a router, as far as its operations read them.
pub ghost struct Limits {
    /// Most subscriptions that one connection may hold.
    pub max_subscriptions: usize,
    /// Whether subscribing to a channel that does not exist creates it.
    pub auto_create: bool,
    /// Whether a channel is deleted when its last subscriber leaves.
    pub auto_delete: bool,
}

/// One channel of the registry.
pub ghost struct ChannelState {
    /// The subscribed connections, in the order in which they subscribed.
    pub subscribers: Seq<Seq<char>>,
    /// The present members, in the order in which they joined.
    pub presence: Seq<PresenceStateView>,
}

/// The state of a router.
pub ghost struct RouterState {
    /// The registry: channel name to channel.
    pub channels: Map<Seq<char>, ChannelState>,
    /// The per-connection index: connection to the channels it is subscribed to.
    pub connections: Map<Seq<char>, Set<Seq<char>>>,
}

/// Why a router operation failed.
pub ghost enum RouterErrorView {
    InvalidChannel(Seq<char>),
    ChannelNotFound(Seq<char>),
    NotSubscribed(Seq<char>),
    AlreadySubscribed(Seq<char>),
    MaxSubscriptionsReached,
    Internal(Seq<char>),
}

impl RouterState {
    /// The state of a router without channels and without connections.
    pub open spec fn empty() -> RouterState {
        RouterState { channels: Map::empty(), connections: Map::empty() }
    }

    /// The channels that `connection` is subscribed to, by the connection
    /// index; none for a connection the index does not know.
    pub open spec fn channels_of(self, connection: Seq<char>) -> Set<Seq<char>> {
        if self.connections.contains_key(connection) {
            self.connections[connection]
        } else {
            Set::empty()
        }
    }

    /// The subscribers of `channel`, by the registry; none for a channel that
    /// does not exist.
    pub open spec fn subscribers_of(self, channel: Seq<char>) -> Seq<Seq<char>> {
        if self.channels.contains_key(channel) {
            self.channels[channel].subscribers
        } else {
            Seq::empty()
        }
    }

    /// The present members of `channel`; none for a channel that does not exist.
    pub open spec fn presence_of(self, channel: Seq<char>) -> Seq<PresenceStateView> {
        if self.channels.contains_key(channel) {
            self.channels[channel].presence
        } else {
            Seq::empty()
        }
    }

    /// Whether the registry lists `connection` as a subscriber of `channel`.
    pub open spec fn channel_lists(self, channel: Seq<char>, connection: Seq<char>) -> bool {
        self.channels.contains_key(channel) && self.channels[channel].subscribers.contains(
            connection,
        )
    }

    /// Whether the connection index lists `channel` for `connection`.
    pub open spec fn connection_lists(self, connection: Seq<char>, channel: Seq<char>) -> bool {
        self.connections.contains_key(connection) && self.connections[connection].contains(channel)
    }

    /// The two indices agree: a connection is among a channel's subscribers
    /// exactly when the channel is among the connection's channels. Besides,
    /// no channel lists a subscriber or a member twice.
    pub open spec fn wf(self) -> bool {
        &&& forall|channel: Seq<char>, connection: Seq<char>|
            #![trigger self.channel_lists(channel, connection)]
            #![trigger self.connection_lists(connection, channel)]
            self.channel_lists(channel, connection) <==> self.connection_lists(connection, channel)
        &&& forall|channel: Seq<char>| #[trigger]
            self.channels.contains_key(channel) ==> {
                &&& self.channels[channel].subscribers.no_duplicates()
                &&& member_ids(self.channels[channel].presence).no_duplicates()
            }
    }

    /// No channel of the registry is without subscribers.
    pub open spec fn no_idle_channel(self) -> bool {
        forall|channel: Seq<char>| #[trigger]
            self.channels.contains_key(channel) ==> self.channels[channel].subscribers.len() > 0
    }

    /// Why `connection` cannot subscribe to `channel`, if it cannot. The
    /// checks come in this order: the name is valid; the connection holds
    /// fewer subscriptions than the limit; it is not subscribed to the channel
    /// yet; the channel exists or may be created.
    pub open spec fn subscribe_error(self, limits: Limits, connection: Seq<char>, channel: Seq<char>)
        -> Option<RouterErrorView> {
        if let Some(problem) = channel_name_problem(channel) {
            Some(RouterErrorView::InvalidChannel(problem))
        } else if self.channels_of(connection).len() >= limits.max_subscriptions {
            Some(RouterErrorView::MaxSubscriptionsReached)
        } else if self.channels_of(connection).contains(channel) {
            Some(RouterErrorView::AlreadySubscribed(channel))
        } else if !limits.auto_create && !self.channels.contains_key(channel) {
            Some(RouterErrorView::ChannelNotFound(channel))
        } else {
            None
        }
    }

    /// The state after `connection` asked to subscribe to `channel`. A request
    /// with an invalid name changes nothing. Any other request makes the
    /// connection known to the connection index; one that succeeds also adds
    /// the subscription to both indices and creates the channel if need be.
    pub open spec fn subscribe(self, limits: Limits, connection: Seq<char>, channel: Seq<char>)
        -> RouterState {
        if channel_name_problem(channel) is Some {
            self
        } else if self.subscribe_error(limits, connection, channel) is Some {
            RouterState {
                connections: self.connections.insert(connection, self.channels_of(connection)),
                ..self
            }
        } else {
            RouterState {
                channels: self.channels.insert(
                    channel,
                    ChannelState {
                        subscribers: with_text(self.subscribers_of(channel), connection),
                        presence: self.presence_of(channel),
                    },
                ),
                connections: self.connections.insert(
                    connection,
                    self.channels_of(connection).insert(channel),
                ),
            }
        }
    }

    /// The registry after `connection` was taken out of `channel`: it leaves
    /// the subscribers and the present members, and the channel is deleted
    /// when that empties it and `auto_delete` is set.
    pub open spec fn channels_without(self, auto_delete: bool, channel: Seq<char>, connection: Seq<char>)
        -> Map<Seq<char>, ChannelState> {
        if self.channels.contains_key(channel) {
            let remaining = without(self.channels[channel].subscribers, connection);
            if auto_delete && remaining.len() == 0 {
                self.channels.remove(channel)
            } else {
                self.channels.insert(
                    channel,
                    ChannelState {
                        subscribers: remaining,
                        presence: left(self.channels[channel].presence, connection),
                    },
                )
            }
        } else {
            self.channels
        }
    }

    /// Why `connection` cannot unsubscribe from `channel`, if it cannot: it is
    /// not subscribed.
    pub open spec fn unsubscribe_error(self, connection: Seq<char>, channel: Seq<char>) -> Option<
        RouterErrorView,
    > {
        if self.connection_lists(connection, channel) {
            None
        } else {
            Some(RouterErrorView::NotSubscribed(channel))
        }
    }

    /// The state after `connection` asked to unsubscribe from `channel`.
    pub open spec fn unsubscribe(self, limits: Limits, connection: Seq<char>, channel: Seq<char>)
        -> RouterState {
        if self.connection_lists(connection, channel) {
            RouterState {
                channels: self.channels_without(limits.auto_delete, channel, connection),
                connections: self.connections.insert(
                    connection,
                    self.connections[connection].remove(channel),
                ),
            }
        } else {
            self
        }
    }

    /// The registry after `connection` was taken out of every channel in
    /// `names`.
    pub open spec fn channels_without_all(
        self,
        auto_delete: bool,
        names: Set<Seq<char>>,
        connection: Seq<char>,
    ) -> Map<Seq<char>, ChannelState> {
        Map::new(
            |channel: Seq<char>|
                self.channels.contains_key(channel) && !(names.contains(channel) && auto_delete
                    && without(self.channels[channel].subscribers, connection).len() == 0),
            |channel: Seq<char>|
                if names.contains(channel) {
                    ChannelState {
                        subscribers: without(self.channels[channel].subscribers, connection),
                        presence: left(self.channels[channel].presence, connection),
                    }
                } else {
                    self.channels[channel]
                },
        )
    }

    /// The state after `connection` was unsubscribed from every channel it
    /// held: the connection index forgets it, and it leaves each of those
    /// channels as in `unsubscribe`.
    pub open spec fn unsubscribe_all(self, limits: Limits, connection: Seq<char>) -> RouterState {
        if self.connections.contains_key(connection) {
            RouterState {
                channels: self.channels_without_all(
                    limits.auto_delete,
                    self.connections[connection],
                    connection,
                ),
                connections: self.connections.remove(connection),
            }
        } else {
            self
        }
    }

    /// The state after `connection` joined the presence of `channel` at time
    /// `now`; unchanged when the channel does not exist.
    pub open spec fn presence_join(
        self,
        connection: Seq<char>,
        channel: Seq<char>,
        data: Option<serde_json::Value>,
        now: u64,
    ) -> RouterState {
        if self.channels.contains_key(channel) {
            RouterState {
                channels: self.channels.insert(
                    channel,
                    ChannelState {
                        presence: joined(self.channels[channel].presence, connection, data, now),
                        ..self.channels[channel]
                    },
                ),
                ..self
            }
        } else {
            self
        }
    }

    /// The state after `connection` left the presence of `channel`; unchanged
    /// when the channel does not exist.
    pub open spec fn presence_leave(self, connection: Seq<char>, channel: Seq<char>) -> RouterState {
        if self.channels.contains_key(channel) {
            RouterState {
                channels: self.channels.insert(
                    channel,
                    ChannelState {
                        presence: left(self.channels[channel].presence, connection),
                        ..self.channels[channel]
                    },
                ),
                ..self
            }
        } else {
            self
        }
    }

    /// The subscriptions: the pairs of a connection and a channel it is
    /// subscribed to.
    pub open spec fn subscriptions(self) -> Set<(Seq<char>, Seq<char>)> {
        Set::new(|pair: (Seq<char>, Seq<char>)| self.connection_lists(pair.0, pair.1))
    }
}

/// The subscriptions of the connections listed in `connections`.
pub open spec fn subscriptions_among(s: RouterState, connections: Seq<Seq<char>>) -> Set<
    (Seq<char>, Seq<char>),
> {
    Set::new(
        |pair: (Seq<char>, Seq<char>)|
            connections.contains(pair.0) && s.connection_lists(pair.0, pair.1),
    )
}

/// The number `n`, or the largest `usize` when `n` is above it.
pub open spec fn saturated(n: nat) -> usize {
    if n <= usize::MAX {
        n as usize
    } else {
        usize::MAX
    }
}

/// Counting subscriptions connection by connection: one more connection adds
/// the channels it holds.
pub proof fn lemma_subscriptions_step(s: RouterState, connections: Seq<Seq<char>>, i: int)
    requires
        0 <= i < connections.len(),
        connections.no_duplicates(),
        s.channels_of(connections[i]).finite(),
        subscriptions_among(s, connections.take(i)).finite(),
    ensures
        subscriptions_among(s, connections.take(i + 1)).finite(),
        subscriptions_among(s, connections.take(i + 1)).len() == subscriptions_among(
            s,
            connections.take(i),
        ).len() + s.channels_of(connections[i]).len(),
{
    let connection = connections[i];
    let held = s.channels_of(connection);
    let pairing = |channel: Seq<char>| (connection, channel);
    let row = held.map(pairing);
    let seen = connections.take(i);
    let grown = connections.take(i + 1);
    let earlier = subscriptions_among(s, seen);
    let later = subscriptions_among(s, grown);
    assert(vstd::relations::injective_on(pairing, held)) by {
        assert forall|a: Seq<char>, b: Seq<char>|
            held.contains(a) && held.contains(b) && #[trigger] pairing(a) == #[trigger] pairing(
                b,
            ) implies a == b by {}
    }
    vstd::set_lib::lemma_map_size(held, row, pairing);
    assert(earlier.disjoint(row)) by {
        assert forall|pair: (Seq<char>, Seq<char>)| !(earlier.contains(pair) && row.contains(
            pair,
        )) by {
            if earlier.contains(pair) && row.contains(pair) {
                let k = choose|k: int| 0 <= k < seen.len() && seen[k] == pair.0;
                let n = choose|n: Seq<char>| held.contains(n) && pairing(n) == pair;
                assert(connections[k] == connections[i]);
            }
        }
    }
    assert(later =~= earlier + row) by {
        assert forall|pair: (Seq<char>, Seq<char>)| later.contains(pair) <==> earlier.contains(
            pair,
        ) || row.contains(pair) by {
            if grown.contains(pair.0) {
                let k = choose|k: int| 0 <= k < grown.len() && grown[k] == pair.0;
                if k < i {
                    assert(seen[k] == pair.0);
                }
            }
            if seen.contains(pair.0) {
                let k = choose|k: int| 0 <= k < seen.len() && seen[k] == pair.0;
                assert(grown[k] == pair.0);
            }
            if row.contains(pair) {
                let n = choose|n: Seq<char>| held.contains(n) && pairing(n) == pair;
                assert(grown[i] == connection);
            }
            if later.contains(pair) && !earlier.contains(pair) {
                assert(pair.0 == connection);
                assert(held.contains(pair.1));
                assert(pairing(pair.1) == pair);
            }
        }
    }
    vstd::set_lib::lemma_set_disjoint_lens(earlier, row);
}

/// A request to the router that changes subscriptions.
pub ghost enum RouterOp {
    Subscribe { connection: Seq<char>, channel: Seq<char> },
    Unsubscribe { connection: Seq<char>, channel: Seq<char> },
    UnsubscribeAll { connection: Seq<char> },
}

impl RouterState {
    /// The state after one request.
    pub open spec fn apply(self, limits: Limits, op: RouterOp) -> RouterState {
        match op {
            RouterOp::Subscribe { connection, channel } => self.subscribe(
                limits,
                connection,
                channel,
            ),
            RouterOp::Unsubscribe { connection, channel } => self.unsubscribe(
                limits,
                connection,
                channel,
            ),
            RouterOp::UnsubscribeAll { connection } => self.unsubscribe_all(limits, connection),
        }
    }

    /// The state after a sequence of requests, applied in order.
    pub open spec fn apply_all(self, limits: Limits, ops: Seq<RouterOp>) -> RouterState
        decreases ops.len(),
    {
        if ops.len() == 0 {
            self
        } else {
            self.apply_all(limits, ops.drop_last()).apply(limits, ops.last())
        }
    }
}

/// Subscribing keeps the two indices in agreement, and a router that deletes
/// empty channels keeps having none.
pub proof fn lemma_subscribe_keeps_indices(
    s: RouterState,
    limits: Limits,
    connection: Seq<char>,
    channel: Seq<char>,
)
    requires
        s.wf(),
    ensures
        s.subscribe(limits, connection, channel).wf(),
        s.no_idle_channel() ==> s.subscribe(limits, connection, channel).no_idle_channel(),
        s.subscribe_error(limits, connection, channel) is None ==> s.subscribe(
            limits,
            connection,
            channel,
        ).connection_lists(connection, channel),
{
    let t = s.subscribe(limits, connection, channel);
    if channel_name_problem(channel) is Some {
    } else if s.subscribe_error(limits, connection, channel) is Some {
        assert forall|n: Seq<char>, c: Seq<char>| t.channel_lists(n, c) <==> t.connection_lists(
            c,
            n,
        ) by {
            assert(s.channel_lists(n, c) <==> s.connection_lists(c, n));
        }
    } else {
        lemma_with_text(s.subscribers_of(channel), connection);
        assert(t.channels[channel].subscribers.contains(connection));
        assert forall|n: Seq<char>, c: Seq<char>| t.channel_lists(n, c) <==> t.connection_lists(
            c,
            n,
        ) by {
            assert(s.channel_lists(n, c) <==> s.connection_lists(c, n));
            assert(s.channel_lists(channel, c) <==> s.connection_lists(c, channel));
        }
        assert forall|n: Seq<char>| #[trigger] t.channels.contains_key(n) implies {
            &&& t.channels[n].subscribers.no_duplicates()
            &&& member_ids(t.channels[n].presence).no_duplicates()
        } by {
            if n != channel {
                assert(s.channels.contains_key(n));
            } else if s.channels.contains_key(channel) {
            } else {
                assert(member_ids(Seq::<PresenceStateView>::empty()) =~= Seq::<
                    Seq<char>,
                >::empty());
            }
        }
        if s.no_idle_channel() {
            assert forall|n: Seq<char>| #[trigger] t.channels.contains_key(n) implies t.channels[n].subscribers.len()
                > 0 by {
                if n != channel {
                    assert(s.channels.contains_key(n));
                }
            }
        }
    }
}

/// Taking a connection out of one channel: what the registry lists afterwards.
proof fn lemma_channels_without(
    s: RouterState,
    auto_delete: bool,
    channel: Seq<char>,
    connection: Seq<char>,
)
    requires
        s.wf(),
    ensures
        forall|n: Seq<char>, c: Seq<char>|
            #![trigger s.channel_lists(n, c)]
            (RouterState {
                channels: s.channels_without(auto_delete, channel, connection),
                ..s
            }).channel_lists(n, c) <==> s.channel_lists(n, c) && !(n == channel && c
                == connection),
        forall|n: Seq<char>| #[trigger]
            s.channels_without(auto_delete, channel, connection).contains_key(n) ==> {
                &&& s.channels_without(
                    auto_delete,
                    channel,
                    connection,
                )[n].subscribers.no_duplicates()
                &&& member_ids(
                    s.channels_without(auto_delete, channel, connection)[n].presence,
                ).no_duplicates()
                &&& s.channels.contains_key(n)
                &&& (auto_delete && s.channels[n].subscribers.len() > 0 ==> s.channels_without(
                    auto_delete,
                    channel,
                    connection,
                )[n].subscribers.len() > 0)
            },
{
    let m = s.channels_without(auto_delete, channel, connection);
    let t = RouterState { channels: m, ..s };
    if s.channels.contains_key(channel) {
        lemma_without(s.channels[channel].subscribers, connection);
        lemma_membership(s.channels[channel].presence, connection, None, arbitrary(), 0);
        let remaining = without(s.channels[channel].subscribers, connection);
        assert forall|n: Seq<char>, c: Seq<char>|
            #![trigger s.channel_lists(n, c)]
            t.channel_lists(n, c) <==> s.channel_lists(n, c) && !(n == channel && c
                == connection) by {
            if n == channel {
                if auto_delete && remaining.len() == 0 {
                    if s.channel_lists(n, c) && c != connection {
                        assert(remaining.contains(c));
                        let k = choose|k: int| 0 <= k < remaining.len() && remaining[k] == c;
                    }
                } else {
                    assert(remaining.contains(c) <==> s.channels[channel].subscribers.contains(c)
                        && c != connection);
                }
            }
        }
        assert forall|n: Seq<char>| #[trigger] m.contains_key(n) implies {
            &&& m[n].subscribers.no_duplicates()
            &&& member_ids(m[n].presence).no_duplicates()
            &&& s.channels.contains_key(n)
            &&& (auto_delete && s.channels[n].subscribers.len() > 0 ==> m[n].subscribers.len() > 0)
        } by {
            if n != channel {
                assert(s.channels.contains_key(n));
            }
        }
    }
}

/// Unsubscribing keeps the two indices in agreement, and a router that
/// deletes empty channels keeps having none.
pub proof fn lemma_unsubscribe_keeps_indices(
    s: RouterState,
    limits: Limits,
    connection: Seq<char>,
    channel: Seq<char>,
)
    requires
        s.wf(),
    ensures
        s.unsubscribe(limits, connection, channel).wf(),
        limits.auto_delete && s.no_idle_channel() ==> s.unsubscribe(
            limits,
            connection,
            channel,
        ).no_idle_channel(),
        !s.unsubscribe(limits, connection, channel).connection_lists(connection, channel),
        !s.unsubscribe(limits, connection, channel).channel_lists(channel, connection),
{
    let t = s.unsubscribe(limits, connection, channel);
    if s.connection_lists(connection, channel) {
        lemma_channels_without(s, limits.auto_delete, channel, connection);
        let mid = RouterState {
            channels: s.channels_without(limits.auto_delete, channel, connection),
            ..s
        };
        assert forall|n: Seq<char>, c: Seq<char>| t.channel_lists(n, c) <==> t.connection_lists(
            c,
            n,
        ) by {
            assert(t.channel_lists(n, c) == mid.channel_lists(n, c));
            assert(s.channel_lists(n, c) <==> s.connection_lists(c, n));
        }
        assert forall|n: Seq<char>| #[trigger] t.channels.contains_key(n) implies {
            &&& t.channels[n].subscribers.no_duplicates()
            &&& member_ids(t.channels[n].presence).no_duplicates()
        } by {
            assert(s.channels_without(limits.auto_delete, channel, connection).contains_key(n));
        }
        if limits.auto_delete && s.no_idle_channel() {
            assert forall|n: Seq<char>| #[trigger] t.channels.contains_key(n) implies t.channels[n].subscribers.len()
                > 0 by {
                assert(s.channels_without(limits.auto_delete, channel, connection).contains_key(
                    n,
                ));
                if n != channel {
                    assert(s.channels.contains_key(n));
                }
            }
        }
    } else {
        assert(s.channel_lists(channel, connection) <==> s.connection_lists(connection, channel));
    }
}

/// Unsubscribing a connection from all its channels keeps the two indices in
/// agreement, and a router that deletes empty channels keeps having none.
/// Afterwards no channel lists the connection.
pub proof fn lemma_unsubscribe_all_keeps_indices(
    s: RouterState,
    limits: Limits,
    connection: Seq<char>,
)
    requires
        s.wf(),
    ensures
        s.unsubscribe_all(limits, connection).wf(),
        limits.auto_delete && s.no_idle_channel() ==> s.unsubscribe_all(
            limits,
            connection,
        ).no_idle_channel(),
        forall|n: Seq<char>| !#[trigger] s.unsubscribe_all(limits, connection).channel_lists(
            n,
            connection,
        ),
{
    let t = s.unsubscribe_all(limits, connection);
    if s.connections.contains_key(connection) {
        let names = s.connections[connection];
        assert forall|n: Seq<char>| #[trigger] t.channels.contains_key(n) implies {
            &&& t.channels[n].subscribers.no_duplicates()
            &&& member_ids(t.channels[n].presence).no_duplicates()
            &&& (limits.auto_delete && s.no_idle_channel() ==> t.channels[n].subscribers.len() > 0)
        } by {
            assert(s.channels.contains_key(n));
            lemma_without(s.channels[n].subscribers, connection);
            lemma_membership(s.channels[n].presence, connection, None, arbitrary(), 0);
        }
        assert forall|n: Seq<char>, c: Seq<char>| t.channel_lists(n, c) <==> t.connection_lists(
            c,
            n,
        ) by {
            assert(s.channel_lists(n, c) <==> s.connection_lists(c, n));
            assert(s.channel_lists(n, connection) <==> s.connection_lists(connection, n));
            if s.channels.contains_key(n) {
                lemma_without(s.channels[n].subscribers, connection);
                let remaining = without(s.channels[n].subscribers, connection);
                if names.contains(n) {
                    if s.channels[n].subscribers.contains(c) && c != connection {
                        assert(remaining.contains(c));
                        let k = choose|k: int| 0 <= k < remaining.len() && remaining[k] == c;
                    }
                }
            }
        }
        assert forall|n: Seq<char>| !#[trigger] t.channel_lists(n, connection) by {
            assert(t.channel_lists(n, connection) <==> t.connection_lists(connection, n));
        }
    } else {
        assert forall|n: Seq<char>| !#[trigger] t.channel_lists(n, connection) by {
            assert(s.channel_lists(n, connection) <==> s.connection_lists(connection, n));
        }
    }
}

/// Joining and leaving presence change no subscription and keep the state
/// well formed.
pub proof fn lemma_presence_keeps_indices(
    s: RouterState,
    connection: Seq<char>,
    channel: Seq<char>,
    data: Option<serde_json::Value>,
    now: u64,
)
    requires
        s.wf(),
    ensures
        s.presence_join(connection, channel, data, now).wf(),
        s.presence_leave(connection, channel).wf(),
        s.no_idle_channel() ==> s.presence_join(connection, channel, data, now).no_idle_channel()
            && s.presence_leave(connection, channel).no_idle_channel(),
{
    let j = s.presence_join(connection, channel, data, now);
    let l = s.presence_leave(connection, channel);
    if s.channels.contains_key(channel) {
        lemma_membership(s.channels[channel].presence, connection, data, arbitrary(), now);
        assert forall|n: Seq<char>, c: Seq<char>| j.channel_lists(n, c) <==> j.connection_lists(
            c,
            n,
        ) by {
            assert(s.channel_lists(n, c) <==> s.connection_lists(c, n));
        }
        assert forall|n: Seq<char>, c: Seq<char>| l.channel_lists(n, c) <==> l.connection_lists(
            c,
            n,
        ) by {
            assert(s.channel_lists(n, c) <==> s.connection_lists(c, n));
        }
        assert forall|n: Seq<char>| #[trigger] j.channels.contains_key(n) implies {
            &&& j.channels[n].subscribers.no_duplicates()
            &&& member_ids(j.channels[n].presence).no_duplicates()
            &&& (s.no_idle_channel() ==> j.channels[n].subscribers.len() > 0)
        } by {
            assert(s.channels.contains_key(n));
        }
        assert forall|n: Seq<char>| #[trigger] l.channels.contains_key(n) implies {
            &&& l.channels[n].subscribers.no_duplicates()
            &&& member_ids(l.channels[n].presence).no_duplicates()
            &&& (s.no_idle_channel() ==> l.channels[n].subscribers.len() > 0)
        } by {
            assert(s.channels.contains_key(n));
        }
    }
}

/// After any sequence of subscribe and unsubscribe requests on a router that
/// started empty, a connection is among a channel's subscribers exactly when
/// the channel is among the connection's channels; and where empty channels
/// are deleted, every channel of the registry has a subscriber.
pub proof fn lemma_indices_agree(limits: Limits, ops: Seq<RouterOp>)
    ensures
        RouterState::empty().apply_all(limits, ops).wf(),
        limits.auto_delete ==> RouterState::empty().apply_all(limits, ops).no_idle_channel(),
        forall|channel: Seq<char>, connection: Seq<char>|
            RouterState::empty().apply_all(limits, ops).channel_lists(channel, connection)
                <==> RouterState::empty().apply_all(limits, ops).connection_lists(
                connection,
                channel,
            ),
    decreases ops.len(),
{
    if ops.len() > 0 {
        lemma_indices_agree(limits, ops.drop_last());
        let before = RouterState::empty().apply_all(limits, ops.drop_last());
        match ops.last() {
            RouterOp::Subscribe { connection, channel } => {
                lemma_subscribe_keeps_indices(before, limits, connection, channel);
            },
            RouterOp::Unsubscribe { connection, channel } => {
                lemma_unsubscribe_keeps_indices(before, limits, connection, channel);
            },
            RouterOp::UnsubscribeAll { connection } => {
                lemma_unsubscribe_all_keeps_indices(before, limits, connection);
            },
        }
    }
    let after = RouterState::empty().apply_all(limits, ops);
    assert forall|channel: Seq<char>, connection: Seq<char>|
        after.channel_lists(channel, connection) <==> after.connection_lists(
            connection,
            channel,
        ) by {}
}

/// A request to subscribe under an invalid channel name is rejected as an
/// invalid channel, whatever the state, and changes nothing.
pub proof fn lemma_invalid_name_rejected(
    s: RouterState,
    limits: Limits,
    connection: Seq<char>,
    channel: Seq<char>,
)
    requires
        !valid_channel_name(channel),
    ensures
        s.subscribe_error(limits, connection, channel) matches Some(
            RouterErrorView::InvalidChannel(_),
        ),
        s.subscribe(limits, connection, channel) == s,
{
    crate::channel::lemma_valid_iff_no_problem(channel);
}

/// A connection that holds as many subscriptions as the limit allows is
/// refused one more, under any valid channel name.
pub proof fn lemma_limit_enforced(
    s: RouterState,
    limits: Limits,
    connection: Seq<char>,
    channel: Seq<char>,
)
    requires
        valid_channel_name(channel),
        s.channels_of(connection).len() == limits.max_subscriptions,
    ensures
        s.subscribe_error(limits, connection, channel) == Some(
            RouterErrorView::MaxSubscriptionsReached,
        ),
{
    crate::channel::lemma_valid_iff_no_problem(channel);
}

/// Where empty channels are deleted, a channel is gone once its last
/// subscriber has unsubscribed.
pub proof fn lemma_last_unsubscribe_deletes(
    s: RouterState,
    limits: Limits,
    connection: Seq<char>,
    channel: Seq<char>,
)
    requires
        s.wf(),
        limits.auto_delete,
        s.connection_lists(connection, channel),
        s.subscribers_of(channel).len() == 1,
    ensures
        !s.unsubscribe(limits, connection, channel).channels.contains_key(channel),
{
    assert(s.channel_lists(channel, connection) <==> s.connection_lists(connection, channel));
    lemma_without(s.channels[channel].subscribers, connection);
}

} // verus!

//! Presence: who is "in" a channel, with optional metadata.
//!
//! A presence tracker lists the present connections, each at most once, in the
//! order in which they joined. Timestamps are milliseconds since the Unix
//! epoch. Every operation that needs the time exists twice: once taking the
//! time as an argument, with an exact contract, and once reading the clock.

use crate::clock::low_64;
use crate::clock::millis_of;
use crate::clock::truncate_to_u64;
use crate::clock::unix_millis;
use crate::clock::whole_millis;
use crate::text::same_text;
use crate::text::texts;
use std::time::Duration;
use vstd::prelude::*;

verus! {

/// The presence of one connection in one channel.
#[derive(Debug)]
pub struct PresenceState {
    /// The connection.
    pub connection_id: String,
    /// Metadata chosen by the client.
    pub data: Option<serde_json::Value>,
    /// When the connection joined.
    pub joined_at: u64,
    /// When the connection was last active.
    pub last_seen: u64,
}

/// The mathematical value of a [`PresenceState`].
pub ghost struct PresenceStateView {
    pub connection_id: Seq<char>,
    pub data: Option<serde_json::Value>,
    pub joined_at: u64,
    pub last_seen: u64,
}

impl View for PresenceState {
    type V = PresenceStateView;

    open spec fn view(&self) -> PresenceStateView {
        PresenceStateView {
            connection_id: self.connection_id@,
            data: self.data,
            joined_at: self.joined_at,
            last_seen: self.last_seen,
        }
    }
}

/// Whether a member last seen at `last_seen` is stale at time `now` under the
/// timeout `timeout_ms`: more than the timeout has passed since.
pub open spec fn stale_at(last_seen: u64, now: u64, timeout_ms: u64) -> bool {
    now - last_seen > timeout_ms
}

/// The state of a connection that joins at time `now` with metadata `data`.
pub open spec fn fresh_state(
    connection_id: Seq<char>,
    data: Option<serde_json::Value>,
    now: u64,
) -> PresenceStateView {
    PresenceStateView { connection_id, data, joined_at: now, last_seen: now }
}

/// The state `state` after activity at time `now`.
pub open spec fn touched_state(state: PresenceStateView, now: u64) -> PresenceStateView {
    PresenceStateView { last_seen: now, ..state }
}

/// The state `state` after its metadata was replaced by `data` at time `now`.
pub open spec fn updated_state(
    state: PresenceStateView,
    data: serde_json::Value,
    now: u64,
) -> PresenceStateView {
    PresenceStateView { data: Some(data), last_seen: now, ..state }
}

impl Clone for PresenceState {
    fn clone(&self) -> (copy: Self)
        ensures
            copy@ == self@,
    {
        let data = match &self.data {
            Some(value) => Some(value.clone()),
            None => None,
        };
        PresenceState {
            connection_id: self.connection_id.clone(),
            data,
            joined_at: self.joined_at,
            last_seen: self.last_seen,
        }
    }
}

impl PresenceState {
    /// The state of a connection that joins at time `now`, without metadata.
    #[must_use]
    pub fn new_at(connection_id: &str, now: u64) -> (state: Self)
        ensures
            state@ == fresh_state(connection_id@, None, now),
    {
        PresenceState {
            connection_id: connection_id.to_owned(),
            data: None,
            joined_at: now,
            last_seen: now,
        }
    }

    /// The state of a connection that joins now, without metadata.
    #[must_use]
    pub fn new(connection_id: &str) -> (state: Self)
        ensures
            exists|now: u64| state@ == fresh_state(connection_id@, None, now),
    {
        PresenceState::new_at(connection_id, unix_millis())
    }

    /// The same state with the metadata `data`.
    #[must_use]
    pub fn with_data(self, data: serde_json::Value) -> (state: Self)
        ensures
            state@ == (PresenceStateView { data: Some(data), ..self@ }),
    {
        let mut state = self;
        state.data = Some(data);
        state
    }

    /// Records activity at time `now`.
    pub fn touch_at(&mut self, now: u64)
        ensures
            final(self)@ == touched_state(old(self)@, now),
    {
        self.last_seen = now;
    }

    /// Records activity now.
    pub fn touch(&mut self)
        ensures
            exists|now: u64| final(self)@ == touched_state(old(self)@, now),
    {
        self.touch_at(unix_millis());
    }

    /// Replaces the metadata and records activity at time `now`.
    pub fn update_data_at(&mut self, data: serde_json::Value, now: u64)
        ensures
            final(self)@ == updated_state(old(self)@, data, now),
    {
        self.data = Some(data);
        self.touch_at(now);
    }

    /// Replaces the metadata and records activity now.
    pub fn update_data(&mut self, data: serde_json::Value)
        ensures
            exists|now: u64| final(self)@ == updated_state(old(self)@, data, now),
    {
        self.update_data_at(data, unix_millis());
    }

    /// Whether the state is stale at time `now` under the timeout
    /// `timeout_ms`. A state last seen after `now` is not stale.
    #[must_use]
    pub fn is_stale_at(&self, now: u64, timeout_ms: u64) -> (stale: bool)
        ensures
            stale == stale_at(self.last_seen, now, timeout_ms),
    {
        now > self.last_seen && now - self.last_seen > timeout_ms
    }

    /// Whether the state is stale now: no activity for more than `timeout`,
    /// counted in whole milliseconds.
    #[must_use]
    pub fn is_stale(&self, timeout: Duration) -> (stale: bool)
        ensures
            exists|now: u64| stale == stale_at(self.last_seen, now, low_64(millis_of(timeout))),
    {
        let timeout_ms = truncate_to_u64(whole_millis(&timeout));
        self.is_stale_at(unix_millis(), timeout_ms)
    }
}

/// The values of a list of presence states, in order.
pub open spec fn views(items: Seq<PresenceState>) -> Seq<PresenceStateView> {
    Seq::new(items.len(), |i: int| items[i]@)
}

/// The connections of a list of presence states, in order.
pub open spec fn member_ids(members: Seq<PresenceStateView>) -> Seq<Seq<char>> {
    Seq::new(members.len(), |i: int| members[i].connection_id)
}

/// Whether `connection_id` is among `members`.
pub open spec fn is_member(members: Seq<PresenceStateView>, connection_id: Seq<char>) -> bool {
    member_ids(members).contains(connection_id)
}

/// The position of `connection_id` among `members`.
pub open spec fn member_index(members: Seq<PresenceStateView>, connection_id: Seq<char>) -> int {
    member_ids(members).index_of(connection_id)
}

/// The members after `connection_id` joined at time `now` with metadata
/// `data`: a member that was present keeps its place and gets a fresh state, a
/// new member goes to the end.
pub open spec fn joined(
    members: Seq<PresenceStateView>,
    connection_id: Seq<char>,
    data: Option<serde_json::Value>,
    now: u64,
) -> Seq<PresenceStateView> {
    if is_member(members, connection_id) {
        members.update(member_index(members, connection_id), fresh_state(connection_id, data, now))
    } else {
        members.push(fresh_state(connection_id, data, now))
    }
}

/// The members after `connection_id` left.
pub open spec fn left(members: Seq<PresenceStateView>, connection_id: Seq<char>) -> Seq<
    PresenceStateView,
> {
    if is_member(members, connection_id) {
        members.remove(member_index(members, connection_id))
    } else {
        members
    }
}

/// The members after `connection_id` replaced its metadata at time `now`.
pub open spec fn updated(
    members: Seq<PresenceStateView>,
    connection_id: Seq<char>,
    data: serde_json::Value,
    now: u64,
) -> Seq<PresenceStateView> {
    if is_member(members, connection_id) {
        let i = member_index(members, connection_id);
        members.update(i, updated_state(members[i], data, now))
    } else {
        members
    }
}

/// The members after activity of `connection_id` at time `now`.
pub open spec fn touched(members: Seq<PresenceStateView>, connection_id: Seq<char>, now: u64) -> Seq<
    PresenceStateView,
> {
    if is_member(members, connection_id) {
        let i = member_index(members, connection_id);
        members.update(i, touched_state(members[i], now))
    } else {
        members
    }
}

/// The members that are stale at time `now` under the timeout `timeout_ms`,
/// in order.
pub open spec fn stale_members(members: Seq<PresenceStateView>, now: u64, timeout_ms: u64) -> Seq<
    PresenceStateView,
> {
    members.filter(|m: PresenceStateView| stale_at(m.last_seen, now, timeout_ms))
}

/// The members that are not stale at time `now` under the timeout
/// `timeout_ms`, in order.
pub open spec fn live_members(members: Seq<PresenceStateView>, now: u64, timeout_ms: u64) -> Seq<
    PresenceStateView,
> {
    members.filter(|m: PresenceStateView| !stale_at(m.last_seen, now, timeout_ms))
}

/// Filtering the first `j + 1` items of a list extends the filtering of the
/// first `j` by the item at `j` when it passes, and by nothing otherwise.
pub proof fn lemma_filter_step(
    s: Seq<PresenceStateView>,
    keep: spec_fn(PresenceStateView) -> bool,
    j: int,
)
    requires
        0 <= j < s.len(),
    ensures
        s.take(j + 1).filter(keep) == if keep(s[j]) {
            s.take(j).filter(keep).push(s[j])
        } else {
            s.take(j).filter(keep)
        },
{
    reveal(Seq::filter);
    assert(s.take(j + 1).drop_last() =~= s.take(j));
}

/// In a list without repeated connections, the position of a connection is
/// the only place where it stands.
pub proof fn lemma_member_index(members: Seq<PresenceStateView>, connection_id: Seq<char>, i: int)
    requires
        member_ids(members).no_duplicates(),
        0 <= i < members.len(),
        members[i].connection_id == connection_id,
    ensures
        is_member(members, connection_id),
        member_index(members, connection_id) == i,
{
    let ids = member_ids(members);
    assert(ids[i] == connection_id);
    let j = member_index(members, connection_id);
    assert(0 <= j < ids.len() && ids[j] == connection_id);
}

/// Joining, leaving, updating and touching keep a list free of repeated
/// connections, and change membership as their names say.
pub proof fn lemma_membership(
    members: Seq<PresenceStateView>,
    connection_id: Seq<char>,
    data: Option<serde_json::Value>,
    value: serde_json::Value,
    now: u64,
)
    requires
        member_ids(members).no_duplicates(),
    ensures
        member_ids(joined(members, connection_id, data, now)).no_duplicates(),
        is_member(joined(members, connection_id, data, now), connection_id),
        member_ids(left(members, connection_id)).no_duplicates(),
        !is_member(left(members, connection_id), connection_id),
        member_ids(updated(members, connection_id, value, now)) == member_ids(members),
        member_ids(touched(members, connection_id, now)) == member_ids(members),
        forall|other: Seq<char>|
            other != connection_id ==> (#[trigger] is_member(
                joined(members, connection_id, data, now),
                other,
            ) <==> is_member(members, other)),
        forall|other: Seq<char>|
            other != connection_id ==> (#[trigger] is_member(left(members, connection_id), other)
                <==> is_member(members, other)),
{
    let ids = member_ids(members);
    let fresh = fresh_state(connection_id, data, now);
    if is_member(members, connection_id) {
        let i = member_index(members, connection_id);
        assert(0 <= i < ids.len() && ids[i] == connection_id);
        assert(member_ids(members.update(i, fresh)) =~= ids);
        assert(member_ids(updated(members, connection_id, value, now)) =~= ids);
        assert(member_ids(touched(members, connection_id, now)) =~= ids);
        let rest = members.remove(i);
        let rest_ids = member_ids(rest);
        assert(rest_ids =~= ids.remove(i));
        assert forall|a: int, b: int|
            0 <= a < rest_ids.len() && 0 <= b < rest_ids.len() && a != b implies rest_ids[a]
            != rest_ids[b] by {
            let a2 = if a < i { a } else { a + 1 };
            let b2 = if b < i { b } else { b + 1 };
            assert(rest_ids[a] == ids[a2] && rest_ids[b] == ids[b2]);
        }
        assert forall|other: Seq<char>| #[trigger] rest_ids.contains(other) <==> ids.contains(other)
            && other != connection_id by {
            if rest_ids.contains(other) {
                let k = choose|k: int| 0 <= k < rest_ids.len() && rest_ids[k] == other;
                let k2 = if k < i { k } else { k + 1 };
                assert(ids[k2] == other);
                if other == connection_id {
                    assert(ids[k2] == ids[i]);
                }
            }
            if ids.contains(other) && other != connection_id {
                let k = choose|k: int| 0 <= k < ids.len() && ids[k] == other;
                let k2 = if k < i { k } else { k - 1 };
                assert(rest_ids[k2] == other);
            }
        }
    } else {
        let grown = members.push(fresh);
        let grown_ids = member_ids(grown);
        assert(grown_ids =~= ids.push(connection_id));
        assert(grown_ids[ids.len() as int] == connection_id);
        assert forall|a: int, b: int|
            0 <= a < grown_ids.len() && 0 <= b < grown_ids.len() && a != b implies grown_ids[a]
            != grown_ids[b] by {
            if a < ids.len() {
                assert(ids[a] == grown_ids[a]);
            }
            if b < ids.len() {
                assert(ids[b] == grown_ids[b]);
            }
        }
        assert forall|other: Seq<char>|
            other != connection_id implies (#[trigger] grown_ids.contains(other) <==> ids.contains(
            other,
        )) by {
            if grown_ids.contains(other) {
                let k = choose|k: int| 0 <= k < grown_ids.len() && grown_ids[k] == other;
                assert(ids[k] == other);
            }
            if ids.contains(other) {
                let k = choose|k: int| 0 <= k < ids.len() && ids[k] == other;
                assert(grown_ids[k] == other);
            }
        }
    }
}

/// The presence tracker of one channel.
#[derive(Debug)]
pub struct Presence {
    members: Vec<PresenceState>,
}

impl View for Presence {
    type V = Seq<PresenceStateView>;

    closed spec fn view(&self) -> Seq<PresenceStateView> {
        views(self.members@)
    }
}

impl Presence {
    /// The tracker's invariant: no connection is listed twice.
    pub open spec fn wf(&self) -> bool {
        member_ids(self@).no_duplicates()
    }

    /// A tracker without members.
    #[must_use]
    pub fn new() -> (presence: Self)
        ensures
            presence.wf(),
            presence@ == Seq::<PresenceStateView>::empty(),
    {
        let presence = Presence { members: Vec::new() };
        assert(presence@ =~= Seq::<PresenceStateView>::empty());
        presence
    }

    /// The number of members.
    #[must_use]
    pub fn count(&self) -> (count: usize)
        ensures
            count == self@.len(),
    {
        self.members.len()
    }

    /// Whether no connection is present.
    #[must_use]
    pub fn is_empty(&self) -> (empty: bool)
        ensures
            empty == (self@.len() == 0),
    {
        self.members.is_empty()
    }

    /// The position of `connection_id` in the list, if it is present.
    fn find(&self, connection_id: &str) -> (found: Option<usize>)
        requires
            self.wf(),
        ensures
            match found {
                Some(i) => i < self@.len() && is_member(self@, connection_id@) && i == member_index(
                    self@,
                    connection_id@,
                ) && self.members[i as int]@ == self@[i as int],
                None => !is_member(self@, connection_id@),
            },
    {
        let mut i: usize = 0;
        while i < self.members.len()
            invariant
                self.wf(),
                i <= self.members.len(),
                forall|k: int| 0 <= k < i ==> self.members[k].connection_id@ != connection_id@,
            decreases self.members.len() - i,
        {
            if same_text(self.members[i].connection_id.as_str(), connection_id) {
                proof {
                    lemma_member_index(self@, connection_id@, i as int);
                }
                return Some(i);
            }
            i += 1;
        }
        proof {
            let ids = member_ids(self@);
            assert forall|k: int| 0 <= k < ids.len() implies ids[k] != connection_id@ by {
                assert(ids[k] == self.members[k].connection_id@);
            }
        }
        None
    }

    /// Whether `connection_id` is present.
    #[must_use]
    pub fn is_present(&self, connection_id: &str) -> (present: bool)
        requires
            self.wf(),
        ensures
            present == is_member(self@, connection_id@),
    {
        self.find(connection_id).is_some()
    }

    /// The state of `connection_id`, if it is present.
    #[must_use]
    pub fn get(&self, connection_id: &str) -> (state: Option<&PresenceState>)
        requires
            self.wf(),
        ensures
            match state {
                Some(s) => is_member(self@, connection_id@) && s@ == self@[member_index(
                    self@,
                    connection_id@,
                )],
                None => !is_member(self@, connection_id@),
            },
    {
        match self.find(connection_id) {
            Some(i) => Some(&self.members[i]),
            None => None,
        }
    }

    /// Adds `connection_id` at time `now`, or replaces its state when it is
    /// present already; tells whether it is a new member.
    pub fn join_at(&mut self, connection_id: &str, data: Option<serde_json::Value>, now: u64) -> (is_new:
        bool)
        requires
            old(self).wf(),
        ensures
            final(self).wf(),
            is_new == !is_member(old(self)@, connection_id@),
            final(self)@ == joined(old(self)@, connection_id@, data, now),
    {
        proof {
            lemma_membership(self@, connection_id@, data, arbitrary(), now);
        }
        let state = PresenceState {
            connection_id: connection_id.to_owned(),
            data,
            joined_at: now,
            last_seen: now,
        };
        match self.find(connection_id) {
            Some(i) => {
                self.members.set(i, state);
                assert(self@ =~= joined(old(self)@, connection_id@, data, now));
                false
            },
            None => {
                self.members.push(state);
                assert(self@ =~= joined(old(self)@, connection_id@, data, now));
                true
            },
        }
    }

    /// Adds `connection_id` now, or replaces its state when it is present
    /// already; tells whether it is a new member.
    pub fn join(&mut self, connection_id: &str, data: Option<serde_json::Value>) -> (is_new: bool)
        requires
            old(self).wf(),
        ensures
            final(self).wf(),
            is_new == !is_member(old(self)@, connection_id@),
            exists|now: u64| final(self)@ == joined(old(self)@, connection_id@, data, now),
    {
        self.join_at(connection_id, data, unix_millis())
    }

    /// Removes `connection_id` and returns its state; `None`, and no change,
    /// when it was not present.
    pub fn leave(&mut self, connection_id: &str) -> (state: Option<PresenceState>)
        requires
            old(self).wf(),
        ensures
            final(self).wf(),
            final(self)@ == left(old(self)@, connection_id@),
            match state {
                Some(s) => is_member(old(self)@, connection_id@) && s@ == old(self)@[member_index(
                    old(self)@,
                    connection_id@,
                )],
                None => !is_member(old(self)@, connection_id@),
            },
    {
        proof {
            lemma_membership(self@, connection_id@, None, arbitrary(), 0);
        }
        match self.find(connection_id) {
            Some(i) => {
                let state = self.members.remove(i);
                assert(self@ =~= left(old(self)@, connection_id@));
                Some(state)
            },
            None => None,
        }
    }

    /// Replaces the metadata of `connection_id` at time `now`; tells whether
    /// it was present.
    pub fn update_at(&mut self, connection_id: &str, data: serde_json::Value, now: u64) -> (existed:
        bool)
        requires
            old(self).wf(),
        ensures
            final(self).wf(),
            existed == is_member(old(self)@, connection_id@),
            final(self)@ == updated(old(self)@, connection_id@, data, now),
    {
        proof {
            lemma_membership(self@, connection_id@, None, data, now);
        }
        match self.find(connection_id) {
            Some(i) => {
                let mut state = self.members.remove(i);
                state.update_data_at(data, now);
                self.members.insert(i, state);
                assert(self@ =~= updated(old(self)@, connection_id@, data, now));
                true
            },
            None => false,
        }
    }

    /// Replaces the metadata of `connection_id` now; tells whether it was
    /// present.
    pub fn update(&mut self, connection_id: &str, data: serde_json::Value) -> (existed: bool)
        requires
            old(self).wf(),
        ensures
            final(self).wf(),
            existed == is_member(old(self)@, connection_id@),
            exists|now: u64| final(self)@ == updated(old(self)@, connection_id@, data, now),
    {
        self.update_at(connection_id, data, unix_millis())
    }

    /// Records activity of `connection_id` at time `now`, if it is present.
    pub fn touch_at(&mut self, connection_id: &str, now: u64)
        requires
            old(self).wf(),
        ensures
            final(self).wf(),
            final(self)@ == touched(old(self)@, connection_id@, now),
    {
        proof {
            lemma_membership(self@, connection_id@, None, arbitrary(), now);
        }
        match self.find(connection_id) {
            Some(i) => {
                let mut state = self.members.remove(i);
                state.touch_at(now);
                self.members.insert(i, state);
                assert(self@ =~= touched(old(self)@, connection_id@, now));
            },
            None => {},
        }
    }

    /// Records activity of `connection_id` now, if it is present.
    pub fn touch(&mut self, connection_id: &str)
        requires
            old(self).wf(),
        ensures
            final(self).wf(),
            exists|now: u64| final(self)@ == touched(old(self)@, connection_id@, now),
    {
        self.touch_at(connection_id, unix_millis());
    }

    /// The states of all members, in the order in which they joined.
    #[must_use]
    pub fn members(&self) -> (list: Vec<&PresenceState>)
        ensures
            list.len() == self@.len(),
            forall|i: int| 0 <= i < list.len() ==> list[i]@ == self@[i],
    {
        let mut list: Vec<&PresenceState> = Vec::new();
        let mut i: usize = 0;
        while i < self.members.len()
            invariant
                i <= self.members.len(),
                list.len() == i,
                forall|k: int| 0 <= k < i ==> list[k]@ == self.members[k]@,
            decreases self.members.len() - i,
        {
            list.push(&self.members[i]);
            i += 1;
        }
        list
    }

    /// The connections of all members, in the order in which they joined.
    #[must_use]
    pub fn connection_ids(&self) -> (list: Vec<&str>)
        ensures
            list.len() == self@.len(),
            forall|i: int| 0 <= i < list.len() ==> list[i]@ == member_ids(self@)[i],
    {
        let mut list: Vec<&str> = Vec::new();
        let mut i: usize = 0;
        while i < self.members.len()
            invariant
                i <= self.members.len(),
                list.len() == i,
                forall|k: int| 0 <= k < i ==> list[k]@ == self.members[k].connection_id@,
            decreases self.members.len() - i,
        {
            list.push(self.members[i].connection_id.as_str());
            i += 1;
        }
        list
    }

    /// A copy of the states of all members, in the order in which they joined.
    #[must_use]
    pub fn snapshot(&self) -> (list: Vec<PresenceState>)
        ensures
            views(list@) == self@,
    {
        let mut list: Vec<PresenceState> = Vec::new();
        let mut i: usize = 0;
        while i < self.members.len()
            invariant
                i <= self.members.len(),
                list.len() == i,
                forall|k: int| 0 <= k < i ==> list[k]@ == self.members[k]@,
            decreases self.members.len() - i,
        {
            list.push(self.members[i].clone());
            i += 1;
        }
        assert(views(list@) =~= self@);
        list
    }

    /// Removes the members that are stale at time `now` under the timeout
    /// `timeout_ms` and returns their connections, in order.
    pub fn prune_stale_at(&mut self, now: u64, timeout_ms: u64) -> (removed: Vec<String>)
        requires
            old(self).wf(),
        ensures
            final(self).wf(),
            final(self)@ == live_members(old(self)@, now, timeout_ms),
            texts(removed@) == member_ids(stale_members(old(self)@, now, timeout_ms)),
    {
        let ghost before = self@;
        let ghost stale = |m: PresenceStateView| stale_at(m.last_seen, now, timeout_ms);
        let ghost live = |m: PresenceStateView| !stale_at(m.last_seen, now, timeout_ms);
        let mut removed: Vec<String> = Vec::new();
        let mut i: usize = 0;
        let ghost mut j: int = 0;
        assert(before.take(0).filter(stale) =~= Seq::<PresenceStateView>::empty()) by {
            reveal(Seq::filter);
        }
        assert(before.take(0).filter(live) =~= Seq::<PresenceStateView>::empty()) by {
            reveal(Seq::filter);
        }
        while i < self.members.len()
            invariant
                0 <= j <= before.len(),
                i <= self.members.len(),
                self.members.len() - i == before.len() - j,
                stale == |m: PresenceStateView| stale_at(m.last_seen, now, timeout_ms),
                live == |m: PresenceStateView| !stale_at(m.last_seen, now, timeout_ms),
                self@.take(i as int) == before.take(j).filter(live),
                self@.skip(i as int) == before.skip(j),
                texts(removed@) == member_ids(before.take(j).filter(stale)),
            decreases self.members.len() - i,
        {
            proof {
                lemma_filter_step(before, stale, j);
                lemma_filter_step(before, live, j);
                assert(self@[i as int] == self@.skip(i as int)[0]);
                assert(before[j] == before.skip(j)[0]);
            }
            let ghost current = self@;
            if self.members[i].is_stale_at(now, timeout_ms) {
                let state = self.members.remove(i);
                let ghost listed = texts(removed@);
                removed.push(state.connection_id);
                proof {
                    assert(self@ =~= current.remove(i as int));
                    assert(self@.take(i as int) =~= current.take(i as int));
                    assert(self@.skip(i as int) =~= current.skip(i as int).skip(1));
                    assert(before.skip(j + 1) =~= before.skip(j).skip(1));
                    assert(texts(removed@) =~= member_ids(
                        before.take(j + 1).filter(stale),
                    )) by {
                        assert(texts(removed@) =~= listed.push(
                            before[j].connection_id,
                        ));
                    }
                    j = j + 1;
                }
            } else {
                proof {
                    assert(self@.take(i + 1) =~= self@.take(i as int).push(self@[i as int]));
                    assert(self@.skip(i + 1) =~= self@.skip(i as int).skip(1));
                    assert(before.skip(j + 1) =~= before.skip(j).skip(1));
                    j = j + 1;
                }
                i += 1;
            }
        }
        proof {
            assert(before.take(j) =~= before);
            assert(self@.take(i as int) =~= self@);
            lemma_pruned(before, now, timeout_ms);
        }
        removed
    }

    /// Removes the members that are stale now under `timeout`, counted in
    /// whole milliseconds, and returns their connections, in order.
    pub fn prune_stale(&mut self, timeout: Duration) -> (removed: Vec<String>)
        requires
            old(self).wf(),
        ensures
            final(self).wf(),
            exists|now: u64|
                {
                    &&& final(self)@ == #[trigger] live_members(
                        old(self)@,
                        now,
                        low_64(millis_of(timeout)),
                    )
                    &&& texts(removed@) == member_ids(
                        stale_members(old(self)@, now, low_64(millis_of(timeout))),
                    )
                },
    {
        let timeout_ms = truncate_to_u64(whole_millis(&timeout));
        self.prune_stale_at(unix_millis(), timeout_ms)
    }
}

/// Pruning keeps a list free of repeated connections, keeps exactly the
/// members that are not stale, and no member that stays is stale.
pub proof fn lemma_pruned(members: Seq<PresenceStateView>, now: u64, timeout_ms: u64)
    requires
        member_ids(members).no_duplicates(),
    ensures
        member_ids(live_members(members, now, timeout_ms)).no_duplicates(),
        forall|id: Seq<char>| #[trigger]
            is_member(live_members(members, now, timeout_ms), id) ==> is_member(members, id),
        forall|i: int|
            0 <= i < live_members(members, now, timeout_ms).len() ==> !stale_at(
                (#[trigger] live_members(members, now, timeout_ms)[i]).last_seen,
                now,
                timeout_ms,
            ),
        forall|i: int|
            0 <= i < members.len() && !stale_at(members[i].last_seen, now, timeout_ms)
                ==> live_members(members, now, timeout_ms).contains(#[trigger] members[i]),
        live_members(members, now, timeout_ms).len() + stale_members(members, now, timeout_ms).len()
            == members.len(),
    decreases members.len(),
{
    let live = |m: PresenceStateView| !stale_at(m.last_seen, now, timeout_ms);
    let stale = |m: PresenceStateView| stale_at(m.last_seen, now, timeout_ms);
    broadcast use vstd::seq_lib::group_filter_ensures;
    reveal(Seq::filter);
    if members.len() > 0 {
        let rest = members.drop_last();
        let last = members.last();
        let ids = member_ids(members);
        assert(member_ids(rest) =~= ids.drop_last());
        lemma_pruned(rest, now, timeout_ms);
        let kept = live_members(rest, now, timeout_ms);
        let kept_ids = member_ids(kept);
        assert forall|id: Seq<char>| #[trigger] is_member(rest, id) implies is_member(
            members,
            id,
        ) && id != last.connection_id by {
            let k = choose|k: int| 0 <= k < rest.len() && member_ids(rest)[k] == id;
            assert(ids[k] == id);
            assert(ids[members.len() - 1] == last.connection_id);
        }
        if live(last) {
            let grown = kept.push(last);
            let grown_ids = member_ids(grown);
            assert(grown == live_members(members, now, timeout_ms));
            assert(grown_ids =~= kept_ids.push(last.connection_id));
            assert(ids[members.len() - 1] == last.connection_id);
            assert forall|a: int, b: int|
                0 <= a < grown_ids.len() && 0 <= b < grown_ids.len() && a != b implies grown_ids[a]
                != grown_ids[b] by {
                if a < kept_ids.len() {
                    assert(kept_ids[a] == grown_ids[a]);
                    assert(is_member(kept, kept_ids[a]));
                }
                if b < kept_ids.len() {
                    assert(kept_ids[b] == grown_ids[b]);
                    assert(is_member(kept, kept_ids[b]));
                }
            }
            assert forall|id: Seq<char>| #[trigger] is_member(grown, id) implies is_member(
                members,
                id,
            ) by {
                let k = choose|k: int| 0 <= k < grown_ids.len() && grown_ids[k] == id;
                if k < kept_ids.len() {
                    assert(kept_ids[k] == id);
                    assert(is_member(kept, id));
                }
            }
        } else {
            assert(kept == live_members(members, now, timeout_ms));
        }
    }
}

} // verus!

//! The concurrent maps behind the router.
//!
//! The router keeps its two indices in the sharded hash maps of `dashmap`: the
//! channel registry in a `DashMap` from channel name to channel entry, and the
//! connection index in a `DashMap` from connection to a `DashSet` of channel
//! names. This module gives Verus the model of each collection (the map or set
//! it holds, keyed by the characters of the strings) and the contracts of the
//! operations the router uses. The contracts are taken as given; the router is
//! proved against them.
//!
//! The operations that change a collection take it by exclusive reference, so
//! that no guard into a map is alive while it changes.

use crate::router::ChannelEntry;
use crate::text::texts;
use dashmap::mapref::one::Ref;
use dashmap::DashMap;
use dashmap::DashSet;
use vstd::prelude::*;

verus! {

/// `dashmap::DashMap`: a hash map split into independently locked shards.
#[verifier::external_type_specification]
#[verifier::external_body]
#[verifier::reject_recursive_types(K)]
#[verifier::reject_recursive_types(V)]
#[verifier::reject_recursive_types(S)]
pub struct ExDashMap<K, V, S>(DashMap<K, V, S>);

/// `dashmap::DashSet`: a `DashMap` without values.
#[verifier::external_type_specification]
#[verifier::external_body]
#[verifier::reject_recursive_types(K)]
#[verifier::reject_recursive_types(S)]
pub struct ExDashSet<K, S>(DashSet<K, S>);

/// `dashmap::mapref::one::Ref`: a read guard for one entry of a `DashMap`.
#[verifier::external_type_specification]
#[verifier::external_body]
#[verifier::reject_recursive_types(K)]
#[verifier::reject_recursive_types(V)]
pub struct ExRef<'a, K, V>(Ref<'a, K, V>);

/// The entries of a channel registry, by channel name.
pub uninterp spec fn channel_entries(m: DashMap<String, ChannelEntry>) -> Map<
    Seq<char>,
    ChannelEntry,
>;

/// The entries of a connection index, by connection.
pub uninterp spec fn connection_sets(m: DashMap<String, DashSet<String>>) -> Map<
    Seq<char>,
    DashSet<String>,
>;

/// The names that a set holds.
pub uninterp spec fn set_members(s: DashSet<String>) -> Set<Seq<char>>;

/// The channel entry that a read guard of the registry gives access to.
pub uninterp spec fn entry_behind(r: Ref<String, ChannelEntry>) -> ChannelEntry;

/// The set that a read guard of the connection index gives access to.
pub uninterp spec fn set_behind(r: Ref<String, DashSet<String>>) -> DashSet<String>;

/// A registry without channels.
pub open spec fn no_channels() -> Map<Seq<char>, ChannelEntry> {
    Map::empty()
}

/// A connection index without connections.
pub open spec fn no_connections() -> Map<Seq<char>, DashSet<String>> {
    Map::empty()
}

/// `DashMap::new`: an empty map.
#[verifier::external_body]
pub(crate) fn registry_new() -> (m: DashMap<String, ChannelEntry>)
    ensures
        channel_entries(m) == no_channels(),
{
    DashMap::new()
}

/// `DashMap::len`: the number of entries.
#[verifier::external_body]
pub(crate) fn registry_len(m: &DashMap<String, ChannelEntry>) -> (n: usize)
    ensures
        n == channel_entries(*m).dom().len(),
{
    m.len()
}

/// `DashMap::contains_key`: whether the map has an entry under the key.
#[verifier::external_body]
pub(crate) fn registry_contains(m: &DashMap<String, ChannelEntry>, name: &str) -> (found: bool)
    ensures
        found == channel_entries(*m).contains_key(name@),
{
    m.contains_key(name)
}

/// `DashMap::get`: a read guard for the entry under the key, if there is one.
#[verifier::external_body]
pub(crate) fn registry_get<'a>(m: &'a DashMap<String, ChannelEntry>, name: &str) -> (guard: Option<
    Ref<'a, String, ChannelEntry>,
>)
    ensures
        guard is Some <==> channel_entries(*m).contains_key(name@),
        guard matches Some(g) ==> entry_behind(g) == channel_entries(*m)[name@],
{
    m.get(name)
}

/// `Ref::value`: the value of the entry that the guard holds.
#[verifier::external_body]
pub(crate) fn registry_entry<'a>(guard: &'a Ref<'_, String, ChannelEntry>) -> (entry:
    &'a ChannelEntry)
    ensures
        *entry == entry_behind(*guard),
{
    guard.value()
}

/// `DashMap::insert`: puts the value under the key and returns the value that
/// was there before, if any.
#[verifier::external_body]
pub(crate) fn registry_insert(
    m: &mut DashMap<String, ChannelEntry>,
    name: String,
    entry: ChannelEntry,
) -> (previous: Option<ChannelEntry>)
    ensures
        channel_entries(*final(m)) == channel_entries(*old(m)).insert(name@, entry),
        previous is Some <==> channel_entries(*old(m)).contains_key(name@),
        previous matches Some(p) ==> p == channel_entries(*old(m))[name@],
{
    m.insert(name, entry)
}

/// `DashMap::remove`: takes the entry under the key out of the map and
/// returns its key and value, if there is one.
#[verifier::external_body]
pub(crate) fn registry_remove(m: &mut DashMap<String, ChannelEntry>, name: &str) -> (taken: Option<
    (String, ChannelEntry),
>)
    ensures
        channel_entries(*final(m)) == channel_entries(*old(m)).remove(name@),
        taken is Some <==> channel_entries(*old(m)).contains_key(name@),
        taken matches Some(pair) ==> pair.0@ == name@ && pair.1 == channel_entries(*old(m))[name@],
{
    m.remove(name)
}

/// `DashMap::iter`, keeping a copy of each key: every key of the map once, in
/// the order in which the shards are walked.
#[verifier::external_body]
pub(crate) fn registry_keys(m: &DashMap<String, ChannelEntry>) -> (keys: Vec<String>)
    ensures
        texts(keys@).no_duplicates(),
        forall|k: Seq<char>| texts(keys@).contains(k) <==> channel_entries(*m).contains_key(k),
{
    m.iter().map(|entry| entry.key().clone()).collect()
}

/// `DashMap::new`: an empty map.
#[verifier::external_body]
pub(crate) fn index_new() -> (m: DashMap<String, DashSet<String>>)
    ensures
        connection_sets(m) == no_connections(),
{
    DashMap::new()
}

/// `DashMap::len`: the number of entries.
#[verifier::external_body]
pub(crate) fn index_len(m: &DashMap<String, DashSet<String>>) -> (n: usize)
    ensures
        n == connection_sets(*m).dom().len(),
{
    m.len()
}

/// `DashMap::get`: a read guard for the entry under the key, if there is one.
#[verifier::external_body]
pub(crate) fn index_get<'a>(m: &'a DashMap<String, DashSet<String>>, connection: &str) -> (guard:
    Option<Ref<'a, String, DashSet<String>>>)
    ensures
        guard is Some <==> connection_sets(*m).contains_key(connection@),
        guard matches Some(g) ==> set_behind(g) == connection_sets(*m)[connection@],
{
    m.get(connection)
}

/// `Ref::value`: the value of the entry that the guard holds.
#[verifier::external_body]
pub(crate) fn index_set<'a>(guard: &'a Ref<'_, String, DashSet<String>>) -> (set: &'a DashSet<
    String,
>)
    ensures
        *set == set_behind(*guard),
{
    guard.value()
}

/// `DashMap::insert`: puts the value under the key and returns the value that
/// was there before, if any.
#[verifier::external_body]
pub(crate) fn index_insert(
    m: &mut DashMap<String, DashSet<String>>,
    connection: String,
    set: DashSet<String>,
) -> (previous: Option<DashSet<String>>)
    ensures
        connection_sets(*final(m)) == connection_sets(*old(m)).insert(connection@, set),
        previous is Some <==> connection_sets(*old(m)).contains_key(connection@),
        previous matches Some(p) ==> p == connection_sets(*old(m))[connection@],
{
    m.insert(connection, set)
}

/// `DashMap::remove`: takes the entry under the key out of the map and
/// returns its key and value, if there is one.
#[verifier::external_body]
pub(crate) fn index_remove(m: &mut DashMap<String, DashSet<String>>, connection: &str) -> (taken:
    Option<(String, DashSet<String>)>)
    ensures
        connection_sets(*final(m)) == connection_sets(*old(m)).remove(connection@),
        taken is Some <==> connection_sets(*old(m)).contains_key(connection@),
        taken matches Some(pair) ==> pair.0@ == connection@ && pair.1 == connection_sets(
            *old(m),
        )[connection@],
{
    m.remove(connection)
}

/// `DashMap::iter`, keeping a copy of each key: every key of the map once, in
/// the order in which the shards are walked.
#[verifier::external_body]
pub(crate) fn index_keys(m: &DashMap<String, DashSet<String>>) -> (keys: Vec<String>)
    ensures
        texts(keys@).no_duplicates(),
        forall|k: Seq<char>| texts(keys@).contains(k) <==> connection_sets(*m).contains_key(k),
{
    m.iter().map(|entry| entry.key().clone()).collect()
}

/// `DashSet::new`: an empty set.
#[verifier::external_body]
pub(crate) fn names_new() -> (s: DashSet<String>)
    ensures
        set_members(s) == Set::<Seq<char>>::empty(),
{
    DashSet::new()
}

/// `DashSet::len`: the number of names held.
#[verifier::external_body]
pub(crate) fn names_len(s: &DashSet<String>) -> (n: usize)
    ensures
        n == set_members(*s).len(),
{
    s.len()
}

/// `DashSet::contains`: whether the set holds the name.
#[verifier::external_body]
pub(crate) fn names_contains(s: &DashSet<String>, name: &str) -> (found: bool)
    ensures
        found == set_members(*s).contains(name@),
{
    s.contains(name)
}

/// `DashSet::insert`: adds the name; tells whether it was new.
#[verifier::external_body]
pub(crate) fn names_insert(s: &mut DashSet<String>, name: String) -> (added: bool)
    ensures
        set_members(*final(s)) == set_members(*old(s)).insert(name@),
        added == !set_members(*old(s)).contains(name@),
{
    s.insert(name)
}

/// `DashSet::remove`: takes the name out and returns it, if the set held it.
#[verifier::external_body]
pub(crate) fn names_remove(s: &mut DashSet<String>, name: &str) -> (taken: Option<String>)
    ensures
        set_members(*final(s)) == set_members(*old(s)).remove(name@),
        taken is Some <==> set_members(*old(s)).contains(name@),
        taken matches Some(k) ==> k@ == name@,
{
    s.remove(name)
}

/// `DashSet::iter`, keeping a copy of each name: every name of the set once,
/// in the order in which the shards are walked.
#[verifier::external_body]
pub(crate) fn names_list(s: &DashSet<String>) -> (names: Vec<String>)
    ensures
        texts(names@).no_duplicates(),
        forall|k: Seq<char>| texts(names@).contains(k) <==> set_members(*s).contains(k),
{
    s.iter().map(|name| name.key().clone()).collect()
}

} // verus!

//! The concurrent tables of the writers: the calls of a dispatcher, the
//! streams of the participants of a call, and the set of the participants
//! that a call knows. The tables are those of the `dashmap` crate; what is
//! said of them here is taken from that crate and not proved.

use crate::writer::call_writer::CallWriter;
use crate::writer::stream_writer::StreamWriter;
use dashmap::{DashMap, DashSet};
use vstd::prelude::*;

verus! {

/// `dashmap::DashMap`, a concurrent hash map.
#[verifier::external_type_specification]
#[verifier::external_body]
#[verifier::reject_recursive_types(K)]
#[verifier::reject_recursive_types(V)]
#[verifier::reject_recursive_types(S)]
pub struct ExDashMap<K, V, S>(DashMap<K, V, S>);

/// `dashmap::DashSet`, a concurrent hash set.
#[verifier::external_type_specification]
#[verifier::external_body]
#[verifier::reject_recursive_types(K)]
#[verifier::reject_recursive_types(S)]
pub struct ExDashSet<K, S>(DashSet<K, S>);

/// The table of the streams of a call, by participant.
pub type StreamTable = DashMap<u64, StreamWriter>;

/// The set of the participants that a call knows.
pub type UserSet = DashSet<u64>;

/// The table of the calls of a dispatcher, by call.
pub type CallTable = DashMap<u64, CallWriter>;

/// The entries of a table of streams: the stream of each participant that
/// has one.
pub uninterp spec fn stream_map(streams: DashMap<u64, StreamWriter>) -> Map<u64, StreamWriter>;

/// The members of a set of participants.
pub uninterp spec fn user_set(users: DashSet<u64>) -> Set<u64>;

/// The entries of a table of calls: the writer of each call that has one.
pub uninterp spec fn call_map(calls: DashMap<u64, CallWriter>) -> Map<u64, CallWriter>;

/// No entries.
pub open spec fn no_calls() -> Map<u64, CallWriter> {
    Map::empty()
}

/// `DashMap::new`, for a table of calls: a table without entries.
#[verifier::external_body]
pub(crate) fn new_call_map() -> (table: CallTable)
    ensures
        call_map(table) == no_calls(),
{
    DashMap::new()
}

/// `DashMap::contains_key`, for a table of calls: whether the table has an
/// entry for `guild`.
#[verifier::external_body]
pub(crate) fn call_map_contains(calls: &DashMap<u64, CallWriter>, guild: u64) -> (found: bool)
    ensures
        found == call_map(*calls).dom().contains(guild),
{
    calls.contains_key(&guild)
}

/// `DashMap::insert`, for a table of calls: puts `call` into the table as
/// the entry of `guild` and hands back the entry that `guild` had before,
/// if there was one. The other entries stay.
#[verifier::external_body]
pub(crate) fn call_map_insert(
    calls: &mut DashMap<u64, CallWriter>,
    guild: u64,
    call: CallWriter,
) -> (before: Option<CallWriter>)
    ensures
        call_map(*final(calls)) == call_map(*old(calls)).insert(guild, call),
        before == if call_map(*old(calls)).dom().contains(guild) {
            Some(call_map(*old(calls))[guild])
        } else {
            None
        },
{
    calls.insert(guild, call)
}

/// `DashMap::remove`, for a table of calls: takes the entry of `guild` out
/// of the table and hands it back, if there is one. The other entries stay.
#[verifier::external_body]
pub(crate) fn call_map_remove(calls: &mut DashMap<u64, CallWriter>, guild: u64) -> (taken: Option<
    CallWriter,
>)
    ensures
        call_map(*final(calls)) == call_map(*old(calls)).remove(guild),
        taken == if call_map(*old(calls)).dom().contains(guild) {
            Some(call_map(*old(calls))[guild])
        } else {
            None
        },
{
    match calls.remove(&guild) {
        Some((_, call)) => Some(call),
        None => None,
    }
}

/// No entries.
pub open spec fn no_streams() -> Map<u64, StreamWriter> {
    Map::empty()
}

/// `DashMap::new`: a table without entries.
#[verifier::external_body]
pub(crate) fn new_stream_map() -> (table: StreamTable)
    ensures
        stream_map(table) == no_streams(),
{
    DashMap::new()
}

/// `DashMap::contains_key`: whether the table has an entry for `user`.
#[verifier::external_body]
pub(crate) fn stream_map_contains(streams: &DashMap<u64, StreamWriter>, user: u64) -> (found: bool)
    ensures
        found == stream_map(*streams).dom().contains(user),
{
    streams.contains_key(&user)
}

/// `DashMap::insert`: puts `stream` into the table as the entry of `user`
/// and hands back the entry that `user` had before, if there was one. The
/// other entries stay.
#[verifier::external_body]
pub(crate) fn stream_map_insert(
    streams: &mut DashMap<u64, StreamWriter>,
    user: u64,
    stream: StreamWriter,
) -> (before: Option<StreamWriter>)
    ensures
        stream_map(*final(streams)) == stream_map(*old(streams)).insert(user, stream),
        before == if stream_map(*old(streams)).dom().contains(user) {
            Some(stream_map(*old(streams))[user])
        } else {
            None
        },
{
    streams.insert(user, stream)
}

/// `DashMap::remove`: takes the entry of `user` out of the table and hands
/// it back, if there is one. The other entries stay.
#[verifier::external_body]
pub(crate) fn stream_map_remove(streams: &mut DashMap<u64, StreamWriter>, user: u64) -> (taken:
    Option<StreamWriter>)
    ensures
        stream_map(*final(streams)) == stream_map(*old(streams)).remove(user),
        taken == if stream_map(*old(streams)).dom().contains(user) {
            Some(stream_map(*old(streams))[user])
        } else {
            None
        },
{
    match streams.remove(&user) {
        Some((_, stream)) => Some(stream),
        None => None,
    }
}

/// `DashMap::iter`: the participants that have an entry in the table, each
/// one once, in an order that is not fixed.
#[verifier::external_body]
pub(crate) fn stream_map_users(streams: &DashMap<u64, StreamWriter>) -> (users: Vec<u64>)
    ensures
        users@.no_duplicates(),
        users@.to_set() == stream_map(*streams).dom(),
{
    streams.iter().map(|entry| *entry.key()).collect()
}

/// `DashSet::new`: a set without members.
#[verifier::external_body]
pub(crate) fn new_user_set() -> (users: DashSet<u64>)
    ensures
        user_set(users) == Set::<u64>::empty(),
{
    DashSet::new()
}

/// `DashSet::insert`: makes `user` a member of the set and says whether it
/// was none before.
#[verifier::external_body]
pub(crate) fn user_set_insert(users: &mut DashSet<u64>, user: u64) -> (added: bool)
    ensures
        user_set(*final(users)) == user_set(*old(users)).insert(user),
        added == !user_set(*old(users)).contains(user),
{
    users.insert(user)
}

/// `DashSet::remove`: takes `user` out of the set and hands it back if it
/// was a member.
#[verifier::external_body]
pub(crate) fn user_set_remove(users: &mut DashSet<u64>, user: u64) -> (taken: Option<u64>)
    ensures
        user_set(*final(users)) == user_set(*old(users)).remove(user),
        taken == if user_set(*old(users)).contains(user) {
            Some(user)
        } else {
            None
        },
{
    users.remove(&user)
}

/// `DashSet::clone`: a set of its own with the same members.
#[verifier::external_body]
pub(crate) fn user_set_clone(users: &DashSet<u64>) -> (copy: DashSet<u64>)
    ensures
        user_set(copy) == user_set(*users),
{
    users.clone()
}

/// `DashSet::iter`: the members of the set, each one once, in an order that
/// is not fixed.
#[verifier::external_body]
pub(crate) fn user_set_users(users: &DashSet<u64>) -> (members: Vec<u64>)
    ensures
        members@.no_duplicates(),
        members@.to_set() == user_set(*users),
{
    users.iter().map(|user| *user.key()).collect()
}

} // verus!

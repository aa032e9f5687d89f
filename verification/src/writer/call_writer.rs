//! The writer of one call. It keeps the clock of the call, gives every
//! participant that is announced a stream padded up to the clock, and on
//! every voice tick hands each stream the participant's packets or, where
//! the participant was silent, a packet of silence.

use crate::clock::utc_now;
use crate::error::ErrorKind;
use crate::recording::{RecordingMetadata, RecordingSummary, Timestamp};
use crate::writer::call_model::{
    lemma_announce_wf, lemma_pushed_silent, lemma_pushed_wf, lemma_tick_reached, lemma_tick_wf,
    pushed, tick_stream, CallView,
};
use crate::writer::names::{spec_archive_name, spec_stream_file_name};
use crate::writer::stream_model::{StreamPhase, StreamView};
use crate::writer::stream_writer::{random_serial, StreamWriter};
use crate::writer::tables::{
    new_stream_map, new_user_set, stream_map, stream_map_contains, stream_map_insert,
    stream_map_remove, stream_map_users, user_set, user_set_clone, user_set_insert,
    user_set_remove, user_set_users, StreamTable, UserSet,
};
use crate::writer::updates::{spoke, valid_updates, OpusUpdate, UserUpdate, VoiceUpdateType};
use vstd::prelude::*;

verus! {

/// The bytes that a stream has emitted for its file.
#[derive(Debug)]
pub struct StreamOutput {
    /// The participant whose stream it is.
    pub user: u64,
    /// The name of the file of the stream.
    pub file_name: String,
    /// The bytes to append to the file.
    pub bytes: Vec<u8>,
}

/// What a call has to report of one update. Nothing of it stops the call:
/// every entry is a warning for the log.
#[derive(Debug, PartialEq)]
pub struct TickReport {
    /// The participants of the packets that were dropped because their
    /// sender was never announced (`ErrorKind::UnknownUserForTick`), in the
    /// order of the packets.
    pub unknown_users: Vec<u64>,
    /// The participants whose packets came out of turn and were taken all
    /// the same (`ErrorKind::DiscontinuousTick`), in the order of the
    /// packets and once for every such packet.
    pub discontinuous_speakers: Vec<u64>,
    /// The silent participants whose packet of silence came out of turn
    /// (`ErrorKind::DiscontinuousTick`), each one once, in an order that is
    /// not fixed.
    pub discontinuous_silent: Vec<u64>,
}

impl TickReport {
    /// Whether there is nothing to report.
    pub open spec fn is_empty(&self) -> bool {
        &&& self.unknown_users@ == Seq::<u64>::empty()
        &&& self.discontinuous_speakers@ == Seq::<u64>::empty()
        &&& self.discontinuous_silent@ == Seq::<u64>::empty()
    }

    /// Whether this is the report of a voice tick with the packets
    /// `updates` on the call `call`. There is nothing to report of a tick
    /// that the tick counter cannot count.
    pub open spec fn of_tick(&self, call: CallView, updates: Seq<OpusUpdate>) -> bool {
        if call.tick_count == u64::MAX {
            self.is_empty()
        } else {
            &&& self.unknown_users@ == call.unknown_users(updates)
            &&& self.discontinuous_speakers@ == call.out_of_turn(updates, call.next_tick())
            &&& self.discontinuous_silent@.no_duplicates()
            &&& forall|user: u64|
                self.discontinuous_silent@.contains(user) <==> call.silent_out_of_turn(
                    updates,
                    user,
                    call.next_tick(),
                )
        }
    }

    /// A report of nothing.
    pub fn new() -> (report: Self)
        ensures
            report.is_empty(),
    {
        Self {
            unknown_users: Vec::new(),
            discontinuous_speakers: Vec::new(),
            discontinuous_silent: Vec::new(),
        }
    }
}

/// The writer of one call.
pub struct CallWriter {
    metadata: RecordingMetadata,
    streams: StreamTable,
    known_users: UserSet,
    tick_count: u64,
}

impl View for CallWriter {
    type V = CallView;

    closed spec fn view(&self) -> CallView {
        CallView {
            tick_count: self.tick_count,
            streams: Map::new(
                |user: u64| stream_map(self.streams).dom().contains(user),
                |user: u64| stream_map(self.streams)[user]@,
            ),
        }
    }
}

/// What holds of the entry of `user` in the table of a call `guild_id`: the
/// stream is well formed, and it is the stream of that participant of that
/// call.
pub open spec fn entry_ok(streams: Map<u64, StreamWriter>, user: u64, guild_id: u64) -> bool {
    &&& streams[user].wf()
    &&& streams[user].spec_user_id() == user
    &&& streams[user].spec_guild_id() == guild_id
}

/// Whether the entry of `user` has in `now` the file name that it has in
/// `before`.
pub open spec fn same_name(
    now: Map<u64, StreamWriter>,
    before: Map<u64, StreamWriter>,
    user: u64,
) -> bool {
    now[user].spec_file_name() == before[user].spec_file_name()
}

impl CallWriter {
    /// Every entry of the table is the well-formed stream of its
    /// participant, and the participants that the call knows are those that
    /// have a stream.
    pub closed spec fn inv(&self) -> bool {
        &&& forall|user: u64| #[trigger]
            stream_map(self.streams).dom().contains(user) ==> entry_ok(
                stream_map(self.streams),
                user,
                self.metadata.guild_id,
            )
        &&& user_set(self.known_users) == stream_map(self.streams).dom()
    }

    /// The writer is well formed, and so is the call that it stands for.
    pub open spec fn wf(&self) -> bool {
        self.inv() && self@.wf()
    }

    /// What was fixed when the recording began.
    pub closed spec fn spec_metadata(&self) -> RecordingMetadata {
        self.metadata
    }

    /// The name of the file of the stream of `user`.
    pub closed spec fn spec_file_name(&self, user: u64) -> Seq<char> {
        stream_map(self.streams)[user].spec_file_name()
    }

    /// A writer for the call that `metadata` describes, without
    /// participants and at tick zero.
    pub fn new(metadata: RecordingMetadata) -> (call: Self)
        ensures
            call.wf(),
            call@ == CallView::fresh(),
            call.spec_metadata() == metadata,
    {
        let call = Self {
            metadata,
            streams: new_stream_map(),
            known_users: new_user_set(),
            tick_count: 0,
        };
        proof {
            assert(call@.streams =~= Map::<u64, StreamView>::empty());
            assert(user_set(call.known_users) =~= stream_map(call.streams).dom());
        }
        call
    }

    /// Takes one report of the voice connection: a participant is announced,
    /// or a voice tick brings packets. What there is to warn of comes back:
    /// the packets of a voice tick that were dropped because their sender
    /// was never announced, and the packets, of sound or of silence, that a
    /// stream took out of turn. A voice tick that the tick counter cannot
    /// count any more is dropped whole.
    pub fn push(&mut self, update_data: VoiceUpdateType) -> (report: TickReport)
        requires
            old(self).wf(),
            update_data.valid(),
        ensures
            final(self).wf(),
            final(self).spec_metadata() == old(self).spec_metadata(),
            forall|other: u64|
                old(self)@.known(other) ==> final(self).spec_file_name(other) == old(
                    self,
                ).spec_file_name(other),
            update_data matches VoiceUpdateType::User(user_update) ==> !old(self)@.known(
                user_update.user,
            ) ==> final(self).spec_file_name(user_update.user) == spec_stream_file_name(
                user_update.user,
                user_update.username,
            ),
            update_data matches VoiceUpdateType::Opus(updates) ==> {
                &&& final(self)@ == old(self)@.tick(updates@)
                &&& report.of_tick(old(self)@, updates@)
            },
            update_data matches VoiceUpdateType::User(user_update) ==> {
                &&& exists|serial: u32|
                    final(self)@ == old(self)@.announce(user_update.user, serial)
                &&& report.is_empty()
            },
    {
        match update_data {
            VoiceUpdateType::Opus(opus_update) => self.tick(&opus_update),
            VoiceUpdateType::User(user_update) => {
                let UserUpdate { user, username } = user_update;
                let _ = self.announce(user, username);
                TickReport::new()
            },
        }
    }

    /// Announces `user`: a participant that the call does not know gets a
    /// stream with a random serial number, started and padded with silence
    /// up to the clock of the call. A participant that the call knows keeps
    /// the stream that it has. The serial number drawn comes back.
    pub fn announce(&mut self, user: u64, username: Option<String>) -> (serial: u32)
        requires
            old(self).wf(),
        ensures
            final(self).wf(),
            final(self)@ == old(self)@.announce(user, serial),
            final(self).spec_metadata() == old(self).spec_metadata(),
            forall|other: u64|
                old(self)@.known(other) ==> final(self).spec_file_name(other) == old(
                    self,
                ).spec_file_name(other),
            !old(self)@.known(user) ==> final(self).spec_file_name(user) == spec_stream_file_name(
                user,
                username,
            ),
    {
        let serial = random_serial();
        self.announce_with_serial(user, username, serial);
        serial
    }

    /// Announces `user`, whose stream gets the serial number `serial` if
    /// the call does not know the participant yet.
    pub fn announce_with_serial(&mut self, user: u64, username: Option<String>, serial: u32)
        requires
            old(self).wf(),
        ensures
            final(self).wf(),
            final(self)@ == old(self)@.announce(user, serial),
            final(self).spec_metadata() == old(self).spec_metadata(),
            forall|other: u64|
                old(self)@.known(other) ==> final(self).spec_file_name(other) == old(
                    self,
                ).spec_file_name(other),
            !old(self)@.known(user) ==> final(self).spec_file_name(user) == spec_stream_file_name(
                user,
                username,
            ),
    {
        if stream_map_contains(&self.streams, user) {
            return ;
        }
        let mut new_stream = StreamWriter::with_serial(
            self.metadata.guild_id,
            user,
            username,
            serial,
        );
        new_stream.fill_silence(self.tick_count);
        proof {
            lemma_announce_wf(self@, user, serial);
        }
        let ghost before = stream_map(self.streams);
        let _ = stream_map_insert(&mut self.streams, user, new_stream);
        let _ = user_set_insert(&mut self.known_users, user);
        proof {
            assert(user_set(self.known_users) =~= stream_map(self.streams).dom());
            assert(self@.streams =~= old(self)@.announce(user, serial).streams);
            assert forall|other: u64| #[trigger]
                stream_map(self.streams).dom().contains(other) implies entry_ok(
                stream_map(self.streams),
                other,
                self.metadata.guild_id,
            ) by {
                if other != user {
                    assert(before.dom().contains(other));
                }
            }
        }
    }

    /// Takes a voice tick.
    fn tick(&mut self, updates: &Vec<OpusUpdate>) -> (report: TickReport)
        requires
            old(self).wf(),
            valid_updates(updates@),
        ensures
            final(self).wf(),
            final(self)@ == old(self)@.tick(updates@),
            final(self).spec_metadata() == old(self).spec_metadata(),
            forall|other: u64|
                old(self)@.known(other) ==> final(self).spec_file_name(other) == old(
                    self,
                ).spec_file_name(other),
            report.of_tick(old(self)@, updates@),
    {
        let mut unknown: Vec<u64> = Vec::new();
        let mut late: Vec<u64> = Vec::new();
        let mut late_silent: Vec<u64> = Vec::new();
        if self.tick_count == u64::MAX {
            return TickReport {
                unknown_users: unknown,
                discontinuous_speakers: late,
                discontinuous_silent: late_silent,
            };
        }
        let tick_count: u64 = self.tick_count + 1;
        self.tick_count = tick_count;

        let ghost call = old(self)@;
        let ghost before = stream_map(old(self).streams);
        let ghost guild_id = self.metadata.guild_id;
        let mut silent_users = user_set_clone(&self.known_users);

        let mut i: usize = 0;
        while i < updates.len()
            invariant
                i <= updates.len(),
                valid_updates(updates@),
                call == old(self)@,
                call.wf(),
                before == stream_map(old(self).streams),
                self.metadata == old(self).metadata,
                self.metadata.guild_id == guild_id,
                self.tick_count == tick_count,
                user_set(self.known_users) == before.dom(),
                stream_map(self.streams).dom() == before.dom(),
                forall|user: u64| #[trigger]
                    before.dom().contains(user) ==> {
                        &&& entry_ok(stream_map(self.streams), user, guild_id)
                        &&& same_name(stream_map(self.streams), before, user)
                        &&& stream_map(self.streams)[user]@ == pushed(
                            before[user]@,
                            updates@.take(i as int),
                            user,
                            tick_count,
                        )
                    },
                forall|user: u64| #[trigger]
                    user_set(silent_users).contains(user) <==> before.dom().contains(user)
                        && !spoke(updates@.take(i as int), user),
                unknown@ == call.unknown_users(updates@.take(i as int)),
                late@ == call.out_of_turn(updates@.take(i as int), tick_count),
            decreases updates.len() - i,
        {
            let user: u64 = updates[i].user;
            let ghost table = stream_map(self.streams);
            proof {
                assert(updates@.take(i + 1).drop_last() =~= updates@.take(i as int));
                assert(updates@.take(i + 1).last() == updates@[i as int]);
                assert(call.known(user) == before.dom().contains(user));
            }

            match stream_map_remove(&mut self.streams, user) {
                None => {
                    unknown.push(user);
                },
                Some(stream) => {
                    let mut stream = stream;
                    let _ = user_set_remove(&mut silent_users, user);
                    proof {
                        assert(before.dom().contains(user));
                        assert(call.streams[user].wf());
                        lemma_pushed_wf(
                            before[user]@,
                            updates@.take(i as int),
                            user,
                            tick_count,
                        );
                    }
                    proof {
                        assert(call.streams[user] == before[user]@);
                    }
                    let warning = stream.push(updates[i].opus_data.as_slice(), tick_count);
                    if warning.is_some() {
                        late.push(user);
                    }
                    let _ = stream_map_insert(&mut self.streams, user, stream);
                },
            }
            proof {
                assert(stream_map(self.streams).dom() =~= before.dom());
                assert forall|other: u64| #[trigger] before.dom().contains(other) implies {
                    &&& entry_ok(stream_map(self.streams), other, guild_id)
                    &&& same_name(stream_map(self.streams), before, other)
                    &&& stream_map(self.streams)[other]@ == pushed(
                        before[other]@,
                        updates@.take(i + 1),
                        other,
                        tick_count,
                    )
                } by {
                    if other != user {
                        assert(stream_map(self.streams)[other] == table[other]);
                    }
                }
            }
            i += 1;
        }
        proof {
            assert(updates@.take(i as int) =~= updates@);
        }

        let silent = user_set_users(&silent_users);
        proof {
            assert forall|user: u64|
                silent@.contains(user) <==> before.dom().contains(user) && !spoke(
                    updates@,
                    user,
                ) by {
                assert(silent@.to_set().contains(user) == silent@.contains(user));
                assert(user_set(silent_users).contains(user) <==> before.dom().contains(user)
                    && !spoke(updates@, user));
            }
        }
        let ghost late_streams = Set::new(|user: u64| before[user]@.discontinuous(tick_count));
        let mut k: usize = 0;
        while k < silent.len()
            invariant
                k <= silent.len(),
                silent@.no_duplicates(),
                call == old(self)@,
                call.wf(),
                before == stream_map(old(self).streams),
                self.metadata == old(self).metadata,
                self.metadata.guild_id == guild_id,
                self.tick_count == tick_count,
                user_set(self.known_users) == before.dom(),
                stream_map(self.streams).dom() == before.dom(),
                forall|user: u64|
                    silent@.contains(user) <==> before.dom().contains(user) && !spoke(
                        updates@,
                        user,
                    ),
                late_silent@ == marked(silent@.take(k as int), late_streams),
                forall|user: u64|
                    late_streams.contains(user) <==> before[user]@.discontinuous(tick_count),
                forall|user: u64| #[trigger]
                    before.dom().contains(user) ==> {
                        &&& entry_ok(stream_map(self.streams), user, guild_id)
                        &&& same_name(stream_map(self.streams), before, user)
                        &&& stream_map(self.streams)[user]@ == if silent@.take(k as int).contains(
                            user,
                        ) {
                            before[user]@.push_silence(tick_count)
                        } else {
                            pushed(before[user]@, updates@, user, tick_count)
                        }
                    },
            decreases silent.len() - k,
        {
            let user: u64 = silent[k];
            let ghost table = stream_map(self.streams);
            proof {
                assert(silent@.contains(user));
                assert(before.dom().contains(user));
                assert(!silent@.take(k as int).contains(user));
                lemma_pushed_silent(before[user]@, updates@, user, tick_count);
            }
            match stream_map_remove(&mut self.streams, user) {
                None => {},
                Some(stream) => {
                    let mut stream = stream;
                    let warning = stream.push_silence(tick_count);
                    if warning.is_some() {
                        late_silent.push(user);
                    }
                    let _ = stream_map_insert(&mut self.streams, user, stream);
                },
            }
            proof {
                assert(silent@.take(k + 1).drop_last() =~= silent@.take(k as int));
                assert(stream_map(self.streams).dom() =~= before.dom());
                assert forall|other: u64| #[trigger] before.dom().contains(other) implies {
                    &&& entry_ok(stream_map(self.streams), other, guild_id)
                    &&& same_name(stream_map(self.streams), before, other)
                    &&& stream_map(self.streams)[other]@ == if silent@.take(k + 1).contains(other) {
                        before[other]@.push_silence(tick_count)
                    } else {
                        pushed(before[other]@, updates@, other, tick_count)
                    }
                } by {
                    assert(silent@.take(k + 1) =~= silent@.take(k as int).push(user));
                    if other != user {
                        assert(stream_map(self.streams)[other] == table[other]);
                    }
                    lemma_contains_pushed(silent@.take(k as int), user, other);
                }
            }
            k += 1;
        }
        proof {
            assert(silent@.take(k as int) =~= silent@);
            assert forall|user: u64| call.known(user) implies #[trigger] self@.streams[user]
                == tick_stream(call.streams[user], updates@, user, tick_count) by {
                assert(before.dom().contains(user));
                assert(entry_ok(stream_map(self.streams), user, guild_id));
                assert(call.streams[user] == before[user]@);
            }
            assert(self@.streams.dom() =~= call.streams.dom());
            lemma_tick_reached(call, updates@, self@.streams);
            lemma_tick_wf(call, updates@);
            lemma_marked(silent@, late_streams);
            assert forall|user: u64|
                late_silent@.contains(user) <==> call.silent_out_of_turn(
                    updates@,
                    user,
                    tick_count,
                ) by {
                if before.dom().contains(user) {
                    assert(call.streams[user] == before[user]@);
                }
            }
        }
        TickReport {
            unknown_users: unknown,
            discontinuous_speakers: late,
            discontinuous_silent: late_silent,
        }
    }

    /// Finishes the stream of every participant and says what is known of
    /// the recording. The time of the system clock is taken as its end.
    pub fn finish(&mut self) -> (summary: RecordingSummary)
        requires
            old(self).wf(),
        ensures
            final(self).wf(),
            final(self)@ == old(self)@.finish(),
            final(self).spec_metadata() == old(self).spec_metadata(),
            forall|other: u64|
                old(self)@.known(other) ==> final(self).spec_file_name(other) == old(
                    self,
                ).spec_file_name(other),
            summary.started == old(self).spec_metadata().started,
            summary.archive_name@ == spec_archive_name(old(self).spec_metadata().output_dir_name@),
            summary.known_users@.no_duplicates(),
            forall|user: u64| summary.known_users@.contains(user) <==> old(self)@.known(user),
            summary.failed_users@.no_duplicates(),
            forall|user: u64|
                summary.failed_users@.contains(user) <==> old(self)@.known(user) && old(
                    self,
                )@.streams[user].finish().phase is Failed,
    {
        let ended = utc_now();
        self.finish_at(ended)
    }

    /// Finishes the stream of every participant and says what is known of
    /// the recording, which ended at `ended`.
    pub fn finish_at(&mut self, ended: Timestamp) -> (summary: RecordingSummary)
        requires
            old(self).wf(),
        ensures
            final(self).wf(),
            final(self)@ == old(self)@.finish(),
            final(self).spec_metadata() == old(self).spec_metadata(),
            forall|other: u64|
                old(self)@.known(other) ==> final(self).spec_file_name(other) == old(
                    self,
                ).spec_file_name(other),
            summary.started == old(self).spec_metadata().started,
            summary.ended == ended,
            summary.archive_name@ == spec_archive_name(old(self).spec_metadata().output_dir_name@),
            summary.known_users@.no_duplicates(),
            forall|user: u64| summary.known_users@.contains(user) <==> old(self)@.known(user),
            summary.failed_users@.no_duplicates(),
            forall|user: u64|
                summary.failed_users@.contains(user) <==> old(self)@.known(user) && old(
                    self,
                )@.streams[user].finish().phase is Failed,
    {
        let ghost call = old(self)@;
        let ghost before = stream_map(old(self).streams);
        let ghost guild_id = self.metadata.guild_id;
        let users = stream_map_users(&self.streams);
        let mut failed_users: Vec<u64> = Vec::new();
        let ghost failed_streams = Set::new(|user: u64| before[user]@.finish().phase is Failed);
        let mut k: usize = 0;
        while k < users.len()
            invariant
                k <= users.len(),
                users@.no_duplicates(),
                users@.to_set() == before.dom(),
                failed_users@ == marked(users@.take(k as int), failed_streams),
                forall|user: u64|
                    failed_streams.contains(user) <==> before[user]@.finish().phase is Failed,
                call == old(self)@,
                call.wf(),
                before == stream_map(old(self).streams),
                self.metadata == old(self).metadata,
                self.metadata.guild_id == guild_id,
                self.tick_count == old(self).tick_count,
                user_set(self.known_users) == before.dom(),
                stream_map(self.streams).dom() == before.dom(),
                forall|user: u64| #[trigger]
                    before.dom().contains(user) ==> {
                        &&& entry_ok(stream_map(self.streams), user, guild_id)
                        &&& same_name(stream_map(self.streams), before, user)
                        &&& stream_map(self.streams)[user]@ == if users@.take(k as int).contains(
                            user,
                        ) {
                            before[user]@.finish()
                        } else {
                            before[user]@
                        }
                    },
            decreases users.len() - k,
        {
            let user: u64 = users[k];
            let ghost table = stream_map(self.streams);
            proof {
                assert(users@.contains(user));
                assert(users@.to_set().contains(user));
                assert(before.dom().contains(user));
                assert(!users@.take(k as int).contains(user));
            }
            match stream_map_remove(&mut self.streams, user) {
                None => {},
                Some(stream) => {
                    let mut stream = stream;
                    stream.finish();
                    let failed = match stream.phase() {
                        StreamPhase::Failed => true,
                        _ => false,
                    };
                    if failed {
                        failed_users.push(user);
                    }
                    let _ = stream_map_insert(&mut self.streams, user, stream);
                },
            }
            proof {
                assert(users@.take(k + 1).drop_last() =~= users@.take(k as int));
                assert(stream_map(self.streams).dom() =~= before.dom());
                assert forall|other: u64| #[trigger] before.dom().contains(other) implies {
                    &&& entry_ok(stream_map(self.streams), other, guild_id)
                    &&& same_name(stream_map(self.streams), before, other)
                    &&& stream_map(self.streams)[other]@ == if users@.take(k + 1).contains(other) {
                        before[other]@.finish()
                    } else {
                        before[other]@
                    }
                } by {
                    assert(users@.take(k + 1) =~= users@.take(k as int).push(user));
                    if other != user {
                        assert(stream_map(self.streams)[other] == table[other]);
                    }
                    lemma_contains_pushed(users@.take(k as int), user, other);
                }
            }
            k += 1;
        }
        proof {
            assert(users@.take(k as int) =~= users@);
            assert(self@.streams =~= call.finish().streams) by {
                assert forall|user: u64| before.dom().contains(user) implies #[trigger] self@.streams[user]
                    == call.finish().streams[user] by {
                    assert(entry_ok(stream_map(self.streams), user, guild_id));
                    assert(users@.to_set().contains(user));
                    assert(users@.contains(user));
                }
            }
            assert forall|user: u64| self@.known(user) implies (#[trigger] self@.streams[user]).wf() by {
                assert(entry_ok(stream_map(self.streams), user, guild_id));
            }
        }

        let known_users = user_set_users(&self.known_users);
        proof {
            assert forall|user: u64| known_users@.contains(user) <==> call.known(user) by {
                assert(known_users@.to_set().contains(user) == known_users@.contains(user));
            }
        }
        proof {
            lemma_marked(users@, failed_streams);
            assert forall|user: u64|
                failed_users@.contains(user) <==> call.known(user)
                    && call.streams[user].finish().phase is Failed by {
                assert(users@.to_set().contains(user) == users@.contains(user));
            }
        }
        RecordingSummary {
            started: self.metadata.started,
            ended,
            known_users,
            failed_users,
            archive_name: self.metadata.archive_name(),
        }
    }

    /// Hands out the bytes that the stream of `user` has emitted since the
    /// last call, with the name of the file that they belong to. There is
    /// nothing to hand out for a participant that the call does not know.
    pub fn take_output(&mut self, user: u64) -> (output: Option<StreamOutput>)
        requires
            old(self).wf(),
        ensures
            final(self).wf(),
            final(self)@ == old(self)@.drained(user),
            final(self).spec_metadata() == old(self).spec_metadata(),
            output.is_some() == old(self)@.known(user),
            output matches Some(out) ==> {
                &&& out.user == user
                &&& out.file_name@ == old(self).spec_file_name(user)
                &&& out.bytes@ == old(self)@.streams[user].outbox
            },
            forall|other: u64| final(self).spec_file_name(other) == old(self).spec_file_name(other),
    {
        let ghost before = stream_map(self.streams);
        match stream_map_remove(&mut self.streams, user) {
            None => {
                proof {
                    assert(stream_map(self.streams) =~= before);
                    assert(self@.streams =~= old(self)@.streams);
                }
                None
            },
            Some(stream) => {
                let mut stream = stream;
                proof {
                    assert(entry_ok(before, user, self.metadata.guild_id));
                }
                let bytes = stream.take_output();
                let file_name = stream.file_name().clone();
                let _ = stream_map_insert(&mut self.streams, user, stream);
                proof {
                    self.lemma_entry_replaced(*old(self), user);
                    assert(self@.streams =~= old(self)@.drained(user).streams);
                }
                Some(StreamOutput { user, file_name, bytes })
            },
        }
    }

    /// Gives the stream of `user` up, for one whose file cannot be written
    /// any more. The participant stays known, and its stream takes no
    /// packet from now on.
    pub fn mark_failed(&mut self, user: u64)
        requires
            old(self).wf(),
        ensures
            final(self).wf(),
            final(self)@ == old(self)@.fail(user),
            final(self).spec_metadata() == old(self).spec_metadata(),
            forall|other: u64| final(self).spec_file_name(other) == old(self).spec_file_name(other),
    {
        let ghost before = stream_map(self.streams);
        match stream_map_remove(&mut self.streams, user) {
            None => {
                proof {
                    assert(stream_map(self.streams) =~= before);
                    assert(self@.streams =~= old(self)@.streams);
                }
            },
            Some(stream) => {
                let mut stream = stream;
                proof {
                    assert(entry_ok(before, user, self.metadata.guild_id));
                }
                stream.mark_failed();
                let _ = stream_map_insert(&mut self.streams, user, stream);
                proof {
                    self.lemma_entry_replaced(*old(self), user);
                    assert(self@.streams =~= old(self)@.fail(user).streams);
                }
            },
        }
    }

    /// Forgets `user`, for one whose file could not be created: the call
    /// goes on as if the participant had never been announced.
    pub fn forget(&mut self, user: u64)
        requires
            old(self).wf(),
        ensures
            final(self).wf(),
            final(self)@ == old(self)@.forget(user),
            final(self).spec_metadata() == old(self).spec_metadata(),
            forall|other: u64|
                other != user ==> final(self).spec_file_name(other) == old(self).spec_file_name(
                    other,
                ),
    {
        let ghost before = stream_map(self.streams);
        let _ = stream_map_remove(&mut self.streams, user);
        let _ = user_set_remove(&mut self.known_users, user);
        proof {
            assert(user_set(self.known_users) =~= stream_map(self.streams).dom());
            assert(self@.streams =~= old(self)@.forget(user).streams);
            assert forall|other: u64| #[trigger]
                stream_map(self.streams).dom().contains(other) implies entry_ok(
                stream_map(self.streams),
                other,
                self.metadata.guild_id,
            ) by {
                assert(before.dom().contains(other));
            }
            assert forall|other: u64| self@.known(other) implies (#[trigger] self@.streams[other]).wf() by {
                assert(old(self)@.known(other));
                assert(old(self)@.streams[other].wf());
            }
        }
    }

    /// Takes note that the file of `user` failed in the way `kind`. A file
    /// that could not be created (`IoOpen`) costs the participant its place
    /// in the call, as `forget` says; a file that could not be written
    /// (`IoWrite`) costs the stream, as `mark_failed` says. No other kind of
    /// failure changes the call.
    pub fn stream_failed(&mut self, user: u64, kind: ErrorKind)
        requires
            old(self).wf(),
        ensures
            final(self).wf(),
            final(self)@ == old(self)@.stream_failed(user, kind),
            final(self).spec_metadata() == old(self).spec_metadata(),
            forall|other: u64|
                other != user ==> final(self).spec_file_name(other) == old(self).spec_file_name(
                    other,
                ),
    {
        match kind {
            ErrorKind::IoOpen => self.forget(user),
            ErrorKind::IoWrite => self.mark_failed(user),
            _ => {},
        }
    }

    /// Whether the call knows `user`.
    pub fn has_stream(&self, user: u64) -> (known: bool)
        ensures
            known == self@.known(user),
    {
        stream_map_contains(&self.streams, user)
    }

    /// The participants that the call knows, each one once.
    pub fn users(&self) -> (users: Vec<u64>)
        requires
            self.wf(),
        ensures
            users@.no_duplicates(),
            forall|user: u64| users@.contains(user) <==> self@.known(user),
    {
        let users = user_set_users(&self.known_users);
        proof {
            assert forall|user: u64| users@.contains(user) <==> self@.known(user) by {
                assert(users@.to_set().contains(user) == users@.contains(user));
            }
        }
        users
    }

    /// The number of voice ticks so far.
    pub fn tick_count(&self) -> (tick_count: u64)
        ensures
            tick_count == self@.tick_count,
    {
        self.tick_count
    }

    /// What was fixed when the recording began.
    pub fn metadata(&self) -> (metadata: &RecordingMetadata)
        ensures
            *metadata == self.spec_metadata(),
    {
        &self.metadata
    }

    /// A call in which the entry of one participant was replaced by a
    /// well-formed stream of that participant is well formed.
    proof fn lemma_entry_replaced(&self, before: CallWriter, user: u64)
        requires
            before.wf(),
            stream_map(before.streams).dom().contains(user),
            stream_map(self.streams) == stream_map(before.streams).remove(user).insert(
                user,
                stream_map(self.streams)[user],
            ),
            entry_ok(stream_map(self.streams), user, before.metadata.guild_id),
            self.metadata == before.metadata,
            self.known_users == before.known_users,
            self.tick_count == before.tick_count,
            stream_map(self.streams)[user].spec_file_name() == stream_map(
                before.streams,
            )[user].spec_file_name(),
        ensures
            self.wf(),
            forall|other: u64| self.spec_file_name(other) == before.spec_file_name(other),
            forall|other: u64|
                other != user ==> stream_map(self.streams)[other] == stream_map(
                    before.streams,
                )[other],
            stream_map(self.streams).dom() == stream_map(before.streams).dom(),
    {
        assert(stream_map(self.streams).dom() =~= stream_map(before.streams).dom());
        assert forall|other: u64| #[trigger]
            stream_map(self.streams).dom().contains(other) implies entry_ok(
            stream_map(self.streams),
            other,
            self.metadata.guild_id,
        ) by {
            if other != user {
                assert(stream_map(before.streams).dom().contains(other));
            }
        }
        assert forall|other: u64| self@.known(other) implies (#[trigger] self@.streams[other]).wf() by {
            assert(entry_ok(stream_map(self.streams), other, self.metadata.guild_id));
        }
        assert forall|other: u64| self.spec_file_name(other) == before.spec_file_name(other) by {
            if other != user {
                assert(stream_map(self.streams)[other] == stream_map(before.streams)[other]);
            }
        }
    }
}

/// The items of `list` that are in `marks`, in the order of the list.
spec fn marked(list: Seq<u64>, marks: Set<u64>) -> Seq<u64>
    decreases list.len(),
{
    if list.len() == 0 {
        Seq::empty()
    } else if marks.contains(list.last()) {
        marked(list.drop_last(), marks).push(list.last())
    } else {
        marked(list.drop_last(), marks)
    }
}

/// The marked items of a list are the items of the list that are marked,
/// and they come without a repeat where the list does.
proof fn lemma_marked(list: Seq<u64>, marks: Set<u64>)
    ensures
        forall|item: u64|
            marked(list, marks).contains(item) <==> list.contains(item) && marks.contains(item),
        list.no_duplicates() ==> marked(list, marks).no_duplicates(),
    decreases list.len(),
{
    if list.len() == 0 {
        assert forall|item: u64| !marked(list, marks).contains(item) by {}
        assert forall|item: u64| !list.contains(item) by {}
    } else {
        let front = list.drop_last();
        let last = list.last();
        lemma_marked(front, marks);
        assert(list =~= front.push(last));
        assert forall|item: u64|
            marked(list, marks).contains(item) <==> list.contains(item) && marks.contains(
                item,
            ) by {
            lemma_contains_pushed(front, last, item);
            if marks.contains(last) {
                lemma_contains_pushed(marked(front, marks), last, item);
            }
        }
        if list.no_duplicates() {
            assert(front.no_duplicates()) by {
                assert forall|i: int, j: int|
                    0 <= i < front.len() && 0 <= j < front.len() && i != j implies front[i]
                    != front[j] by {
                    assert(front[i] == list[i] && front[j] == list[j]);
                }
            }
            if marks.contains(last) {
                assert(!front.contains(last)) by {
                    if front.contains(last) {
                        let i = choose|i: int| 0 <= i < front.len() && front[i] == last;
                        assert(list[i] == list[list.len() - 1]);
                    }
                }
                let kept = marked(front, marks);
                assert forall|i: int, j: int|
                    0 <= i < kept.push(last).len() && 0 <= j < kept.push(last).len() && i
                        != j implies kept.push(last)[i] != kept.push(last)[j] by {
                    if i < kept.len() {
                        assert(kept.contains(kept[i]));
                    }
                    if j < kept.len() {
                        assert(kept.contains(kept[j]));
                    }
                }
            }
        }
    }
}

/// A list with one more item holds what it held before, and that item.
proof fn lemma_contains_pushed(list: Seq<u64>, item: u64, other: u64)
    ensures
        list.push(item).contains(other) <==> list.contains(other) || item == other,
{
    if list.push(item).contains(other) {
        let j = choose|j: int| 0 <= j < list.push(item).len() && #[trigger] list.push(item)[j] == other;
        if j < list.len() {
            assert(list[j] == other);
        }
    }
    if list.contains(other) {
        let j = choose|j: int| 0 <= j < list.len() && #[trigger] list[j] == other;
        assert(list.push(item)[j] == other);
    }
    if item == other {
        assert(list.push(item)[list.len() as int] == other);
    }
}

} // verus!

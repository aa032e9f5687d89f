//! The dispatcher: the calls that are being recorded, and the routing of
//! every report of a voice connection to the writer of its call.

use crate::clock::{format_utc, utc_formatted, utc_now};
use crate::error::ErrorKind;
use crate::recording::{RecorderConfig, RecordingMetadata, RecordingSummary, Timestamp};
use crate::writer::call_model::CallView;
use crate::writer::call_writer::{CallWriter, StreamOutput, TickReport};
use crate::writer::names::{decimal, spec_archive_name, spec_stream_file_name};
use crate::writer::tables::{
    call_map, call_map_contains, call_map_insert, call_map_remove, new_call_map, CallTable,
};
use crate::writer::updates::{VoiceUpdate, VoiceUpdateType};
use vstd::prelude::*;

verus! {

/// The dispatcher.
pub struct Writer {
    config: RecorderConfig,
    calls: CallTable,
}

impl View for Writer {
    type V = Map<u64, CallView>;

    /// The calls that are being recorded.
    closed spec fn view(&self) -> Map<u64, CallView> {
        Map::new(
            |guild: u64| call_map(self.calls).dom().contains(guild),
            |guild: u64| call_map(self.calls)[guild]@,
        )
    }
}

/// What holds of the entry of `guild` in the table of a dispatcher: the
/// writer is well formed, and it is the writer of that call.
pub open spec fn call_ok(calls: Map<u64, CallWriter>, guild: u64) -> bool {
    &&& calls[guild].wf()
    &&& calls[guild].spec_metadata().guild_id == guild
}

impl Writer {
    /// Every entry of the table is the well-formed writer of its call.
    pub closed spec fn wf(&self) -> bool {
        forall|guild: u64| #[trigger]
            call_map(self.calls).dom().contains(guild) ==> call_ok(call_map(self.calls), guild)
    }

    /// Where recordings go.
    pub closed spec fn spec_config(&self) -> RecorderConfig {
        self.config
    }

    /// What was fixed when the recording of `guild` began.
    pub closed spec fn spec_metadata(&self, guild: u64) -> RecordingMetadata {
        call_map(self.calls)[guild].spec_metadata()
    }

    /// The name of the file of the stream of `user` in the call `guild`.
    pub closed spec fn spec_file_name(&self, guild: u64, user: u64) -> Seq<char> {
        call_map(self.calls)[guild].spec_file_name(user)
    }

    /// A dispatcher without calls.
    pub fn new(config: RecorderConfig) -> (writer: Self)
        ensures
            writer.wf(),
            writer@ == Map::<u64, CallView>::empty(),
            writer.spec_config() == config,
    {
        let writer = Self { config, calls: new_call_map() };
        proof {
            assert(writer@ =~= Map::<u64, CallView>::empty());
        }
        writer
    }

    /// Begins the recording of the call `guild_id` at the time of the
    /// system clock, which comes back. Whatever the time is, the recording
    /// begins if and only if the time can be written as the configuration
    /// says, as `start_at` tells for that time.
    pub fn start(&mut self, guild_id: u64) -> (started: Result<Timestamp, ErrorKind>)
        requires
            old(self).wf(),
        ensures
            final(self).wf(),
            final(self).spec_config() == old(self).spec_config(),
            forall|other: u64|
                other != guild_id ==> final(self).spec_metadata(other) == old(self).spec_metadata(
                    other,
                ),
            forall|other: u64, user: u64|
                other != guild_id ==> final(self).spec_file_name(other, user) == old(
                    self,
                ).spec_file_name(other, user),
            exists|time: Timestamp|
                match #[trigger] utc_formatted(
                    time.secs,
                    time.nanos,
                    old(self).spec_config().subdir_fmt@,
                ) {
                    Some(name) => {
                        &&& started == Ok::<Timestamp, ErrorKind>(time)
                        &&& final(self)@ == old(self)@.insert(guild_id, CallView::fresh())
                        &&& final(self).spec_metadata(guild_id).guild_id == guild_id
                        &&& final(self).spec_metadata(guild_id).base_dir@ == old(
                            self,
                        ).spec_config().base_dir@
                        &&& final(self).spec_metadata(guild_id).output_dir_name@ == name
                        &&& final(self).spec_metadata(guild_id).started == time
                    },
                    None => {
                        &&& started == Err::<Timestamp, ErrorKind>(ErrorKind::IoOpen)
                        &&& final(self)@ == old(self)@
                    },
                },
            started matches Ok(time) ==> utc_formatted(
                time.secs,
                time.nanos,
                old(self).spec_config().subdir_fmt@,
            ) is Some,
    {
        let time = utc_now();
        let outcome = self.start_at(guild_id, time);
        let started = match outcome {
            Ok(()) => Ok(time),
            Err(kind) => Err(kind),
        };
        proof {
            let written = utc_formatted(
                time.secs,
                time.nanos,
                old(self).spec_config().subdir_fmt@,
            );
            assert(match written {
                Some(name) => {
                    &&& started == Ok::<Timestamp, ErrorKind>(time)
                    &&& self@ == old(self)@.insert(guild_id, CallView::fresh())
                    &&& self.spec_metadata(guild_id).guild_id == guild_id
                    &&& self.spec_metadata(guild_id).base_dir@ == old(self).spec_config().base_dir@
                    &&& self.spec_metadata(guild_id).output_dir_name@ == name
                    &&& self.spec_metadata(guild_id).started == time
                },
                None => {
                    &&& started == Err::<Timestamp, ErrorKind>(ErrorKind::IoOpen)
                    &&& self@ == old(self)@
                },
            });
        }
        started
    }

    /// Begins the recording of the call `guild_id` at the time `started`.
    /// The directory of the recording is named by that time, written as the
    /// configuration says; where the time cannot be written so, no recording
    /// begins. A recording of the same call that is under way is dropped for
    /// the new one.
    pub fn start_at(&mut self, guild_id: u64, started: Timestamp) -> (outcome: Result<
        (),
        ErrorKind,
    >)
        requires
            old(self).wf(),
        ensures
            final(self).wf(),
            final(self).spec_config() == old(self).spec_config(),
            forall|other: u64|
                other != guild_id ==> final(self).spec_metadata(other) == old(self).spec_metadata(
                    other,
                ),
            forall|other: u64, user: u64|
                other != guild_id ==> final(self).spec_file_name(other, user) == old(
                    self,
                ).spec_file_name(other, user),
            match utc_formatted(
                started.secs,
                started.nanos,
                old(self).spec_config().subdir_fmt@,
            ) {
                Some(name) => {
                    &&& outcome == Ok::<(), ErrorKind>(())
                    &&& final(self)@ == old(self)@.insert(guild_id, CallView::fresh())
                    &&& final(self).spec_metadata(guild_id).guild_id == guild_id
                    &&& final(self).spec_metadata(guild_id).base_dir@ == old(
                        self,
                    ).spec_config().base_dir@
                    &&& final(self).spec_metadata(guild_id).output_dir_name@ == name
                    &&& final(self).spec_metadata(guild_id).started == started
                },
                None => {
                    &&& outcome == Err::<(), ErrorKind>(ErrorKind::IoOpen)
                    &&& final(self)@ == old(self)@
                },
            },
    {
        let output_dir_name = match format_utc(started, self.config.subdir_fmt.as_str()) {
            Some(name) => name,
            None => {
                return Err(ErrorKind::IoOpen);
            },
        };

        let rec_metadata = RecordingMetadata {
            guild_id,
            base_dir: self.config.base_dir.clone(),
            output_dir_name,
            started,
        };
        let ghost before = call_map(self.calls);
        let _ = call_map_insert(&mut self.calls, guild_id, CallWriter::new(rec_metadata));
        proof {
            assert(self@ =~= old(self)@.insert(guild_id, CallView::fresh()));
            assert forall|guild: u64| #[trigger]
                call_map(self.calls).dom().contains(guild) implies call_ok(
                call_map(self.calls),
                guild,
            ) by {
                if guild != guild_id {
                    assert(before.dom().contains(guild));
                }
            }
        }
        Ok(())
    }

    /// Ends the recording of the call `guild_id` at the time of the system
    /// clock. See `finish_at`.
    pub fn finish(&mut self, guild_id: u64) -> (finished: Option<(RecordingSummary, CallWriter)>)
        requires
            old(self).wf(),
        ensures
            final(self).wf(),
            final(self).spec_config() == old(self).spec_config(),
            final(self)@ == old(self)@.remove(guild_id),
            finished.is_some() == old(self)@.dom().contains(guild_id),
            finished matches Some(pair) ==> {
                &&& pair.1.wf()
                &&& pair.1@ == old(self)@[guild_id].finish()
                &&& pair.1.spec_metadata() == old(self).spec_metadata(guild_id)
                &&& pair.0.started == old(self).spec_metadata(guild_id).started
                &&& pair.0.archive_name@ == spec_archive_name(
                    old(self).spec_metadata(guild_id).output_dir_name@,
                )
                &&& pair.0.known_users@.no_duplicates()
                &&& forall|user: u64|
                    pair.0.known_users@.contains(user) <==> old(self)@[guild_id].known(user)
                &&& pair.0.failed_users@.no_duplicates()
                &&& forall|user: u64|
                    pair.0.failed_users@.contains(user) <==> old(self)@[guild_id].known(user)
                        && old(self)@[guild_id].streams[user].finish().phase is Failed
            },
    {
        let ended = utc_now();
        self.finish_at(guild_id, ended)
    }

    /// Ends the recording of the call `guild_id` at the time `ended`: the
    /// call leaves the dispatcher, every stream of it is finished, and the
    /// writer of the call comes back with what is known of the recording,
    /// for the last bytes of its streams to be handed out. There is nothing
    /// to end for a call that is not being recorded.
    pub fn finish_at(&mut self, guild_id: u64, ended: Timestamp) -> (finished: Option<
        (RecordingSummary, CallWriter),
    >)
        requires
            old(self).wf(),
        ensures
            final(self).wf(),
            final(self).spec_config() == old(self).spec_config(),
            final(self)@ == old(self)@.remove(guild_id),
            finished.is_some() == old(self)@.dom().contains(guild_id),
            finished matches Some(pair) ==> {
                &&& pair.1.wf()
                &&& pair.1@ == old(self)@[guild_id].finish()
                &&& pair.1.spec_metadata() == old(self).spec_metadata(guild_id)
                &&& pair.0.started == old(self).spec_metadata(guild_id).started
                &&& pair.0.ended == ended
                &&& pair.0.archive_name@ == spec_archive_name(
                    old(self).spec_metadata(guild_id).output_dir_name@,
                )
                &&& pair.0.known_users@.no_duplicates()
                &&& forall|user: u64|
                    pair.0.known_users@.contains(user) <==> old(self)@[guild_id].known(user)
                &&& pair.0.failed_users@.no_duplicates()
                &&& forall|user: u64|
                    pair.0.failed_users@.contains(user) <==> old(self)@[guild_id].known(user)
                        && old(self)@[guild_id].streams[user].finish().phase is Failed
            },
    {
        let ghost before = call_map(self.calls);
        let taken = call_map_remove(&mut self.calls, guild_id);
        proof {
            assert(self@ =~= old(self)@.remove(guild_id));
            assert forall|guild: u64| #[trigger]
                call_map(self.calls).dom().contains(guild) implies call_ok(
                call_map(self.calls),
                guild,
            ) by {
                assert(before.dom().contains(guild));
            }
        }
        match taken {
            None => None,
            Some(call) => {
                let mut call = call;
                proof {
                    assert(call_ok(before, guild_id));
                }
                let summary = call.finish_at(ended);
                Some((summary, call))
            },
        }
    }

    /// Routes one report to the writer of its call. What the call has to
    /// warn of comes back: the packets that were dropped because their
    /// sender was never announced, and the packets that a stream took out
    /// of turn. A report for a call that is not being recorded is dropped.
    pub fn dispatch(&mut self, voice_update: VoiceUpdate) -> (outcome: Result<
        TickReport,
        ErrorKind,
    >)
        requires
            old(self).wf(),
            voice_update.update.valid(),
        ensures
            final(self).wf(),
            final(self).spec_config() == old(self).spec_config(),
            forall|guild: u64| final(self).spec_metadata(guild) == old(self).spec_metadata(guild),
            forall|guild: u64, other: u64|
                old(self)@.dom().contains(guild) && old(self)@[guild].known(other) ==> final(self).spec_file_name(guild, other) == old(self).spec_file_name(guild, other),
            voice_update.update matches VoiceUpdateType::User(user_update) ==> old(
                self,
            )@.dom().contains(voice_update.guild) && !old(self)@[voice_update.guild].known(
                user_update.user,
            ) ==> final(self).spec_file_name(voice_update.guild, user_update.user)
                == spec_stream_file_name(user_update.user, user_update.username),
            !old(self)@.dom().contains(voice_update.guild) ==> {
                &&& outcome == Err::<TickReport, ErrorKind>(ErrorKind::UnknownCall)
                &&& final(self)@ == old(self)@
            },
            old(self)@.dom().contains(voice_update.guild) ==> {
                &&& outcome is Ok
                &&& final(self)@ == old(self)@.insert(
                    voice_update.guild,
                    final(self)@[voice_update.guild],
                )
                &&& voice_update.update matches VoiceUpdateType::Opus(updates) ==> {
                    &&& final(self)@[voice_update.guild] == old(self)@[voice_update.guild].tick(
                        updates@,
                    )
                    &&& outcome->Ok_0.of_tick(old(self)@[voice_update.guild], updates@)
                }
                &&& voice_update.update matches VoiceUpdateType::User(user_update) ==> {
                    &&& exists|serial: u32|
                        final(self)@[voice_update.guild] == old(
                            self,
                        )@[voice_update.guild].announce(user_update.user, serial)
                    &&& outcome->Ok_0.is_empty()
                }
            },
    {
        let VoiceUpdate { guild, update } = voice_update;
        let ghost before = call_map(self.calls);
        match call_map_remove(&mut self.calls, guild) {
            None => {
                proof {
                    assert(call_map(self.calls) =~= before);
                    assert(self@ =~= old(self)@);
                }
                Err(ErrorKind::UnknownCall)
            },
            Some(call) => {
                let mut call = call;
                proof {
                    assert(call_ok(before, guild));
                }
                let ghost report = update;
                let ghost call_before = call@;
                let unknown = call.push(update);
                let ghost call_after = call@;
                let _ = call_map_insert(&mut self.calls, guild, call);
                proof {
                    self.lemma_call_replaced(*old(self), guild);
                    assert(self@[guild] == call_after);
                    assert(old(self)@[guild] == call_before);
                    if let VoiceUpdateType::User(user_update) = report {
                        let serial = choose|serial: u32|
                            call_after == call_before.announce(user_update.user, serial);
                        assert(self@[guild] == old(self)@[guild].announce(
                            user_update.user,
                            serial,
                        ));
                    }
                }
                Ok(unknown)
            },
        }
    }

    /// Hands out the bytes that the stream of `user` in the call `guild`
    /// has emitted since the last call, with the name of the file that they
    /// belong to. There is nothing to hand out for a call that is not being
    /// recorded or for a participant that the call does not know.
    pub fn take_output(&mut self, guild: u64, user: u64) -> (output: Option<StreamOutput>)
        requires
            old(self).wf(),
        ensures
            final(self).wf(),
            final(self).spec_config() == old(self).spec_config(),
            forall|guild: u64| final(self).spec_metadata(guild) == old(self).spec_metadata(guild),
            forall|guild: u64, other: u64|
                old(self)@.dom().contains(guild) && old(self)@[guild].known(other) ==> final(self).spec_file_name(guild, other) == old(self).spec_file_name(guild, other),
            output.is_some() == (old(self)@.dom().contains(guild) && old(self)@[guild].known(
                user,
            )),
            output matches Some(out) ==> {
                &&& out.user == user
                &&& out.file_name@ == old(self).spec_file_name(guild, user)
                &&& out.bytes@ == old(self)@[guild].streams[user].outbox
            },
            final(self)@ == if old(self)@.dom().contains(guild) {
                old(self)@.insert(guild, old(self)@[guild].drained(user))
            } else {
                old(self)@
            },
    {
        let ghost before = call_map(self.calls);
        match call_map_remove(&mut self.calls, guild) {
            None => {
                proof {
                    assert(call_map(self.calls) =~= before);
                    assert(self@ =~= old(self)@);
                }
                None
            },
            Some(call) => {
                let mut call = call;
                proof {
                    assert(call_ok(before, guild));
                }
                let output = call.take_output(user);
                let _ = call_map_insert(&mut self.calls, guild, call);
                proof {
                    self.lemma_call_replaced(*old(self), guild);
                }
                output
            },
        }
    }

    /// Gives the stream of `user` in the call `guild` up, for one whose
    /// file cannot be written any more.
    pub fn mark_failed(&mut self, guild: u64, user: u64)
        requires
            old(self).wf(),
        ensures
            final(self).wf(),
            final(self).spec_config() == old(self).spec_config(),
            forall|guild: u64| final(self).spec_metadata(guild) == old(self).spec_metadata(guild),
            forall|guild: u64, other: u64|
                old(self)@.dom().contains(guild) && old(self)@[guild].known(other) ==> final(self).spec_file_name(guild, other) == old(self).spec_file_name(guild, other),
            final(self)@ == if old(self)@.dom().contains(guild) {
                old(self)@.insert(guild, old(self)@[guild].fail(user))
            } else {
                old(self)@
            },
    {
        let ghost before = call_map(self.calls);
        match call_map_remove(&mut self.calls, guild) {
            None => {
                proof {
                    assert(call_map(self.calls) =~= before);
                    assert(self@ =~= old(self)@);
                }
            },
            Some(call) => {
                let mut call = call;
                proof {
                    assert(call_ok(before, guild));
                }
                call.mark_failed(user);
                let _ = call_map_insert(&mut self.calls, guild, call);
                proof {
                    self.lemma_call_replaced(*old(self), guild);
                }
            },
        }
    }

    /// Forgets `user` in the call `guild`, for one whose file could not be
    /// created.
    pub fn forget(&mut self, guild: u64, user: u64)
        requires
            old(self).wf(),
        ensures
            final(self).wf(),
            final(self).spec_config() == old(self).spec_config(),
            forall|other: u64| final(self).spec_metadata(other) == old(self).spec_metadata(other),
            forall|other: u64, known: u64|
                !(other == guild && known == user) ==> final(self).spec_file_name(other, known)
                    == old(self).spec_file_name(other, known),
            final(self)@ == if old(self)@.dom().contains(guild) {
                old(self)@.insert(guild, old(self)@[guild].forget(user))
            } else {
                old(self)@
            },
    {
        let ghost before = call_map(self.calls);
        match call_map_remove(&mut self.calls, guild) {
            None => {
                proof {
                    assert(call_map(self.calls) =~= before);
                    assert(self@ =~= old(self)@);
                }
            },
            Some(call) => {
                let mut call = call;
                proof {
                    assert(call_ok(before, guild));
                }
                call.forget(user);
                let _ = call_map_insert(&mut self.calls, guild, call);
                proof {
                    self.lemma_call_replaced(*old(self), guild);
                }
            },
        }
    }

    /// Takes note that the file of `user` in the call `guild` failed in the
    /// way `kind`: a file that could not be created costs the participant
    /// its place in the call, a file that could not be written costs the
    /// stream.
    pub fn stream_failed(&mut self, guild: u64, user: u64, kind: ErrorKind)
        requires
            old(self).wf(),
        ensures
            final(self).wf(),
            final(self).spec_config() == old(self).spec_config(),
            forall|other: u64| final(self).spec_metadata(other) == old(self).spec_metadata(other),
            forall|other: u64, known: u64|
                !(other == guild && known == user) ==> final(self).spec_file_name(other, known)
                    == old(self).spec_file_name(other, known),
            final(self)@ == if old(self)@.dom().contains(guild) {
                old(self)@.insert(guild, old(self)@[guild].stream_failed(user, kind))
            } else {
                old(self)@
            },
    {
        let ghost before = call_map(self.calls);
        match call_map_remove(&mut self.calls, guild) {
            None => {
                proof {
                    assert(call_map(self.calls) =~= before);
                    assert(self@ =~= old(self)@);
                }
            },
            Some(call) => {
                let mut call = call;
                proof {
                    assert(call_ok(before, guild));
                }
                call.stream_failed(user, kind);
                let _ = call_map_insert(&mut self.calls, guild, call);
                proof {
                    self.lemma_call_replaced(*old(self), guild);
                }
            },
        }
    }

    /// The participants that the call `guild` knows, each one once; none
    /// for a call that is not being recorded.
    pub fn users(&mut self, guild: u64) -> (users: Vec<u64>)
        requires
            old(self).wf(),
        ensures
            final(self).wf(),
            final(self).spec_config() == old(self).spec_config(),
            forall|guild: u64| final(self).spec_metadata(guild) == old(self).spec_metadata(guild),
            forall|guild: u64, other: u64|
                old(self)@.dom().contains(guild) && old(self)@[guild].known(other) ==> final(self).spec_file_name(guild, other) == old(self).spec_file_name(guild, other),
            final(self)@ == old(self)@,
            users@.no_duplicates(),
            forall|user: u64|
                users@.contains(user) <==> old(self)@.dom().contains(guild) && old(
                    self,
                )@[guild].known(user),
    {
        let ghost before = call_map(self.calls);
        match call_map_remove(&mut self.calls, guild) {
            None => {
                proof {
                    assert(call_map(self.calls) =~= before);
                    assert(self@ =~= old(self)@);
                }
                Vec::new()
            },
            Some(call) => {
                proof {
                    assert(call_ok(before, guild));
                }
                let users = call.users();
                let _ = call_map_insert(&mut self.calls, guild, call);
                proof {
                    self.lemma_call_replaced(*old(self), guild);
                    assert(self@ =~= old(self)@);
                }
                users
            },
        }
    }

    /// The directory of the recording of the call `guild`, from the
    /// outermost directory inwards: the base directory, the number of the
    /// call in decimal, and the name of the recording. There is none for a
    /// call that is not being recorded.
    pub fn output_dir(&mut self, guild: u64) -> (path: Option<Vec<String>>)
        requires
            old(self).wf(),
        ensures
            final(self).wf(),
            final(self).spec_config() == old(self).spec_config(),
            final(self)@ == old(self)@,
            forall|other: u64| final(self).spec_metadata(other) == old(self).spec_metadata(other),
            forall|other: u64, user: u64|
                final(self).spec_file_name(other, user) == old(self).spec_file_name(other, user),
            path.is_some() == old(self)@.dom().contains(guild),
            path matches Some(parts) ==> {
                &&& parts@.len() == 3
                &&& parts@[0]@ == old(self).spec_metadata(guild).base_dir@
                &&& parts@[1]@ == decimal(guild as nat)
                &&& parts@[2]@ == old(self).spec_metadata(guild).output_dir_name@
            },
    {
        let ghost before = call_map(self.calls);
        match call_map_remove(&mut self.calls, guild) {
            None => {
                proof {
                    assert(call_map(self.calls) =~= before);
                    assert(self@ =~= old(self)@);
                }
                None
            },
            Some(call) => {
                proof {
                    assert(call_ok(before, guild));
                }
                let path = call.metadata().output_dir();
                let _ = call_map_insert(&mut self.calls, guild, call);
                proof {
                    self.lemma_call_replaced(*old(self), guild);
                    assert(self@ =~= old(self)@);
                }
                Some(path)
            },
        }
    }

    /// Whether the call `guild` is being recorded.
    pub fn has_call(&self, guild: u64) -> (recording: bool)
        ensures
            recording == self@.dom().contains(guild),
    {
        call_map_contains(&self.calls, guild)
    }

    /// Where recordings go.
    pub fn config(&self) -> (config: &RecorderConfig)
        ensures
            *config == self.spec_config(),
    {
        &self.config
    }

    /// A dispatcher in which the entry of one call was replaced by a
    /// well-formed writer of that call is well formed, and its other calls
    /// are as they were.
    proof fn lemma_call_replaced(&self, before: Writer, guild: u64)
        requires
            before.wf(),
            call_map(before.calls).dom().contains(guild),
            call_map(self.calls) == call_map(before.calls).remove(guild).insert(
                guild,
                call_map(self.calls)[guild],
            ),
            call_ok(call_map(self.calls), guild),
        ensures
            self.wf(),
            self@ == before@.insert(guild, self@[guild]),
            forall|other: u64|
                other != guild ==> self.spec_metadata(other) == before.spec_metadata(other),
            forall|other: u64, user: u64|
                other != guild ==> self.spec_file_name(other, user) == before.spec_file_name(
                    other,
                    user,
                ),
    {
        assert(call_map(self.calls).dom() =~= call_map(before.calls).dom());
        assert(self@ =~= before@.insert(guild, self@[guild]));
        assert forall|other: u64| other != guild implies call_map(self.calls)[other] == call_map(
            before.calls,
        )[other] by {}
        assert forall|other: u64| #[trigger]
            call_map(self.calls).dom().contains(other) implies call_ok(
            call_map(self.calls),
            other,
        ) by {
            if other != guild {
                assert(call_map(before.calls).dom().contains(other));
            }
        }
    }
}

} // verus!

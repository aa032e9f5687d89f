//! A call as mathematics: the tick counter that is the clock of the call,
//! and the stream of every participant that the call knows.

use crate::error::ErrorKind;
use crate::writer::stream_model::{
    file_bytes, lemma_dump, lemma_fill_silence, lemma_push, lemma_silence_packet, lemma_start,
    packet_samples, silence_packet, valid_packet, StreamView, SAMPLES_PER_TICK,
};
use crate::writer::updates::{one_packet_each, spoke, valid_updates, OpusUpdate};
use vstd::prelude::*;

verus! {

/// The stream of `user` after the packets that `user` has among `updates`,
/// taken in their order at tick `tick`.
pub open spec fn pushed(
    stream: StreamView,
    updates: Seq<OpusUpdate>,
    user: u64,
    tick: u64,
) -> StreamView
    decreases updates.len(),
{
    if updates.len() == 0 {
        stream
    } else {
        let before = pushed(stream, updates.drop_last(), user, tick);
        if updates.last().user == user {
            before.push(updates.last().opus_data@, tick)
        } else {
            before
        }
    }
}

/// The stream of `user` after the voice tick `tick`: with the packets of
/// `user` where there are any, else with one packet of silence.
pub open spec fn tick_stream(
    stream: StreamView,
    updates: Seq<OpusUpdate>,
    user: u64,
    tick: u64,
) -> StreamView {
    if spoke(updates, user) {
        pushed(stream, updates, user, tick)
    } else {
        stream.push_silence(tick)
    }
}

/// The state of one call.
#[verifier::ext_equal]
pub struct CallView {
    /// The number of voice ticks so far.
    pub tick_count: u64,
    /// The stream of every known participant.
    pub streams: Map<u64, StreamView>,
}

impl CallView {
    /// A call before its first report.
    pub open spec fn fresh() -> CallView {
        CallView { tick_count: 0, streams: Map::empty() }
    }

    /// Whether the call knows `user`.
    pub open spec fn known(self, user: u64) -> bool {
        self.streams.dom().contains(user)
    }

    /// Every stream of the call is well formed.
    pub open spec fn wf(self) -> bool {
        forall|user: u64| self.known(user) ==> (#[trigger] self.streams[user]).wf()
    }

    /// The stream with which a participant joins: started, and padded with
    /// silence up to the clock of the call.
    pub open spec fn joining_stream(self, serial: u32) -> StreamView {
        StreamView::fresh(serial).start().fill_silence(self.tick_count as nat)
    }

    /// The call after `user` was announced. A participant that joins gets a
    /// stream with the number `serial`; one that the call knows keeps the
    /// stream that it has.
    pub open spec fn announce(self, user: u64, serial: u32) -> CallView {
        if self.known(user) {
            self
        } else {
            CallView { streams: self.streams.insert(user, self.joining_stream(serial)), ..self }
        }
    }

    /// The call after a voice tick with the packets `updates`: the clock
    /// moves on by one, and every known participant takes its packets or,
    /// without one, a packet of silence. A tick that the counter cannot count
    /// changes nothing.
    pub open spec fn tick(self, updates: Seq<OpusUpdate>) -> CallView {
        if self.tick_count == u64::MAX {
            self
        } else {
            let tick = (self.tick_count + 1) as u64;
            CallView {
                tick_count: tick,
                streams: Map::new(
                    |user: u64| self.known(user),
                    |user: u64| tick_stream(self.streams[user], updates, user, tick),
                ),
            }
        }
    }

    /// The participants of the packets of a voice tick that the call does
    /// not know, in the order of the packets.
    pub open spec fn unknown_users(self, updates: Seq<OpusUpdate>) -> Seq<u64>
        decreases updates.len(),
    {
        if updates.len() == 0 {
            Seq::empty()
        } else if self.known(updates.last().user) {
            self.unknown_users(updates.drop_last())
        } else {
            self.unknown_users(updates.drop_last()).push(updates.last().user)
        }
    }

    /// The tick that the next voice tick brings.
    pub open spec fn next_tick(self) -> u64 {
        (self.tick_count + 1) as u64
    }

    /// The participants whose packets among `updates` come out of turn at
    /// the tick `tick`, in the order of the packets and once for every such
    /// packet: the stream takes packets, and the tick of the packet does not
    /// follow the tick of the packet that the stream took before it.
    pub open spec fn out_of_turn(self, updates: Seq<OpusUpdate>, tick: u64) -> Seq<u64>
        decreases updates.len(),
    {
        if updates.len() == 0 {
            Seq::empty()
        } else {
            let front = updates.drop_last();
            let user = updates.last().user;
            if self.known(user) && pushed(self.streams[user], front, user, tick).discontinuous(
                tick,
            ) {
                self.out_of_turn(front, tick).push(user)
            } else {
                self.out_of_turn(front, tick)
            }
        }
    }

    /// Whether `user`, without a packet among `updates`, takes its packet of
    /// silence out of turn at the tick `tick`.
    pub open spec fn silent_out_of_turn(
        self,
        updates: Seq<OpusUpdate>,
        user: u64,
        tick: u64,
    ) -> bool {
        self.known(user) && !spoke(updates, user) && self.streams[user].discontinuous(tick)
    }

    /// The call after every stream was finished.
    pub open spec fn finish(self) -> CallView {
        CallView {
            streams: Map::new(
                |user: u64| self.known(user),
                |user: u64| self.streams[user].finish(),
            ),
            ..self
        }
    }

    /// The call without `user`.
    pub open spec fn forget(self, user: u64) -> CallView {
        CallView { streams: self.streams.remove(user), ..self }
    }

    /// The call after the stream of `user` was given up.
    pub open spec fn fail(self, user: u64) -> CallView {
        if self.known(user) {
            CallView { streams: self.streams.insert(user, self.streams[user].fail()), ..self }
        } else {
            self
        }
    }

    /// The call after the file of `user` failed in the way `kind`: a file
    /// that could not be created costs the participant its place in the
    /// call, a file that could not be written costs the stream. No other
    /// kind of failure changes a call.
    pub open spec fn stream_failed(self, user: u64, kind: ErrorKind) -> CallView {
        match kind {
            ErrorKind::IoOpen => self.forget(user),
            ErrorKind::IoWrite => self.fail(user),
            _ => self,
        }
    }

    /// The call after the emitted bytes of `user` were handed out.
    pub open spec fn drained(self, user: u64) -> CallView {
        if self.known(user) {
            CallView { streams: self.streams.insert(user, self.streams[user].drained()), ..self }
        } else {
            self
        }
    }

    /// Whether the streams keep time with the call: every stream that still
    /// takes packets has, with its buffer flushed, as many samples as there
    /// were voice ticks.
    pub open spec fn in_sync(self) -> bool {
        forall|user: u64|
            self.known(user) && (#[trigger] self.streams[user]).accepting()
                ==> self.streams[user].final_granule() == SAMPLES_PER_TICK * self.tick_count
    }
}

/// The samples of the packets that `user` has among `updates`.
pub open spec fn spoken_samples(updates: Seq<OpusUpdate>, user: u64) -> nat
    decreases updates.len(),
{
    if updates.len() == 0 {
        0
    } else if updates.last().user == user {
        spoken_samples(updates.drop_last(), user) + packet_samples(updates.last().opus_data@)
    } else {
        spoken_samples(updates.drop_last(), user)
    }
}

/// Whether a voice tick keeps the streams of `call` in time: every
/// participant whose stream takes its packets has packets for the samples
/// of exactly one voice tick.
pub open spec fn keeps_time(call: CallView, updates: Seq<OpusUpdate>) -> bool {
    forall|user: u64|
        call.known(user) && spoke(updates, user) && (#[trigger] call.tick(
            updates,
        ).streams[user]).accepting() ==> spoken_samples(updates, user) == SAMPLES_PER_TICK
}

/// Whether every packet of a voice tick is a frame of 20 ms, the length of
/// one voice tick.
pub open spec fn tick_sized(updates: Seq<OpusUpdate>) -> bool {
    forall|i: int|
        0 <= i < updates.len() ==> packet_samples((#[trigger] updates[i]).opus_data@)
            == SAMPLES_PER_TICK
}

/// A participant without a packet among `updates` keeps its stream through
/// them.
pub proof fn lemma_pushed_silent(stream: StreamView, updates: Seq<OpusUpdate>, user: u64, tick: u64)
    requires
        !spoke(updates, user),
    ensures
        pushed(stream, updates, user, tick) == stream,
    decreases updates.len(),
{
    if updates.len() > 0 {
        lemma_pushed_silent(stream, updates.drop_last(), user, tick);
    }
}

/// A stream that takes the packets of a voice tick stays well formed, and
/// a stream that has stopped taking packets does not start again.
pub proof fn lemma_pushed_wf(stream: StreamView, updates: Seq<OpusUpdate>, user: u64, tick: u64)
    requires
        stream.wf(),
        valid_updates(updates),
    ensures
        pushed(stream, updates, user, tick).wf(),
        pushed(stream, updates, user, tick).accepting() ==> stream.accepting(),
    decreases updates.len(),
{
    if updates.len() > 0 {
        let front = updates.drop_last();
        assert forall|i: int| 0 <= i < front.len() implies valid_packet(
            (#[trigger] front[i]).opus_data@,
        ) by {
            assert(front[i] == updates[i]);
        }
        lemma_pushed_wf(stream, front, user, tick);
        assert(updates.last() == updates[updates.len() - 1]);
        lemma_push(pushed(stream, front, user, tick), updates.last().opus_data@, tick);
    }
}

/// A stream that takes the packets of its participant and still takes
/// packets afterwards has moved on by the samples of those packets.
pub proof fn lemma_pushed_samples(stream: StreamView, updates: Seq<OpusUpdate>, user: u64, tick: u64)
    requires
        stream.wf(),
        valid_updates(updates),
        pushed(stream, updates, user, tick).accepting(),
    ensures
        pushed(stream, updates, user, tick).final_granule() == stream.final_granule()
            + spoken_samples(updates, user),
    decreases updates.len(),
{
    if updates.len() > 0 {
        let front = updates.drop_last();
        assert forall|i: int| 0 <= i < front.len() implies valid_packet(
            (#[trigger] front[i]).opus_data@,
        ) by {
            assert(front[i] == updates[i]);
        }
        assert(updates.last() == updates[updates.len() - 1]);
        lemma_pushed_wf(stream, front, user, tick);
        if updates.last().user == user {
            lemma_push(pushed(stream, front, user, tick), updates.last().opus_data@, tick);
        }
        lemma_pushed_samples(stream, front, user, tick);
    }
}

/// Where every packet of a voice tick is a frame of 20 ms and no
/// participant has two packets, those who spoke have packets for the
/// samples of exactly one voice tick.
pub proof fn lemma_one_frame_each(updates: Seq<OpusUpdate>, user: u64)
    requires
        tick_sized(updates),
        one_packet_each(updates),
    ensures
        spoken_samples(updates, user) == if spoke(updates, user) {
            SAMPLES_PER_TICK as nat
        } else {
            0
        },
    decreases updates.len(),
{
    if updates.len() > 0 {
        let front = updates.drop_last();
        assert forall|i: int| 0 <= i < front.len() implies packet_samples(
            (#[trigger] front[i]).opus_data@,
        ) == SAMPLES_PER_TICK by {
            assert(front[i] == updates[i]);
        }
        assert(updates.last() == updates[updates.len() - 1]);
        lemma_one_frame_each(front, user);
    }
}

/// A call each of whose streams has taken the packets of its participant
/// or, without one, a packet of silence, is the call after the voice tick.
pub proof fn lemma_tick_reached(
    call: CallView,
    updates: Seq<OpusUpdate>,
    streams: Map<u64, StreamView>,
)
    requires
        call.tick_count < u64::MAX,
        streams.dom() == call.streams.dom(),
        forall|user: u64|
            call.known(user) ==> #[trigger] streams[user] == tick_stream(
                call.streams[user],
                updates,
                user,
                call.next_tick(),
            ),
    ensures
        call.tick(updates) == (CallView { tick_count: call.next_tick(), streams }),
{
    assert(streams =~= call.tick(updates).streams);
}

/// A call stays well formed through a voice tick.
pub proof fn lemma_tick_wf(call: CallView, updates: Seq<OpusUpdate>)
    requires
        call.wf(),
        valid_updates(updates),
    ensures
        call.tick(updates).wf(),
{
    let after = call.tick(updates);
    if call.tick_count < u64::MAX {
        let tick = (call.tick_count + 1) as u64;
        assert forall|user: u64| after.known(user) implies (#[trigger] after.streams[user]).wf() by {
            assert(call.streams[user].wf());
            lemma_pushed_wf(call.streams[user], updates, user, tick);
            lemma_silence_packet();
            lemma_push(call.streams[user], silence_packet(), tick);
        }
    }
}

/// A call stays well formed when a participant is announced.
pub proof fn lemma_announce_wf(call: CallView, user: u64, serial: u32)
    requires
        call.wf(),
    ensures
        call.announce(user, serial).wf(),
{
    let after = call.announce(user, serial);
    lemma_joining_stream(call, serial);
    assert forall|other: u64| after.known(other) implies (#[trigger] after.streams[other]).wf() by {
        if other != user {
            assert(call.streams[other].wf());
        }
    }
}

/// The stream with which a participant joins is well formed, and where it
/// takes packets it stands at the clock of the call.
pub proof fn lemma_joining_stream(call: CallView, serial: u32)
    ensures
        call.joining_stream(serial).wf(),
        call.joining_stream(serial).accepting() ==> call.joining_stream(serial).final_granule()
            == SAMPLES_PER_TICK * call.tick_count,
{
    let fresh = StreamView::fresh(serial);
    assert(file_bytes(fresh.pages).skip(0) =~= fresh.outbox);
    lemma_start(fresh);
    lemma_fill_silence(fresh.start(), call.tick_count as nat);
}

/// Synchronisation, joining: a call whose streams keep time still keeps
/// time when a participant is announced, at whatever tick.
pub proof fn lemma_announce_keeps_sync(call: CallView, user: u64, serial: u32)
    requires
        call.wf(),
        call.in_sync(),
    ensures
        call.announce(user, serial).in_sync(),
{
    let after = call.announce(user, serial);
    lemma_joining_stream(call, serial);
    assert forall|other: u64|
        after.known(other) && (#[trigger] after.streams[other]).accepting() implies after.streams[other].final_granule()
        == SAMPLES_PER_TICK * after.tick_count by {
        if other != user || call.known(user) {
            assert(call.streams[other].accepting());
        }
    }
}

/// Synchronisation, tick by tick: a call whose streams keep time still
/// keeps time after a voice tick on which every participant whose stream
/// takes its packets has packets for the samples of exactly one voice
/// tick.
pub proof fn lemma_tick_keeps_sync(call: CallView, updates: Seq<OpusUpdate>)
    requires
        call.wf(),
        call.in_sync(),
        valid_updates(updates),
        keeps_time(call, updates),
    ensures
        call.tick(updates).in_sync(),
{
    let after = call.tick(updates);
    if call.tick_count < u64::MAX {
        assert forall|user: u64|
            after.known(user) && (#[trigger] after.streams[user]).accepting() implies after.streams[user].final_granule()
            == SAMPLES_PER_TICK * after.tick_count by {
            lemma_tick_moves_every_stream(call, updates, user);
            assert(call.streams[user].wf());
            lemma_pushed_wf(call.streams[user], updates, user, after.tick_count);
            assert(call.streams[user].accepting());
        }
    }
}

/// One voice tick, one packet's worth: a stream that takes packets after a
/// voice tick has moved on by the samples of its participant's packets, or
/// by those of one packet of silence where the participant did not speak.
pub proof fn lemma_tick_moves_every_stream(call: CallView, updates: Seq<OpusUpdate>, user: u64)
    requires
        call.wf(),
        valid_updates(updates),
        call.tick_count < u64::MAX,
        call.known(user),
        call.tick(updates).streams[user].accepting(),
    ensures
        call.tick(updates).streams[user].final_granule() == call.streams[user].final_granule()
            + if spoke(updates, user) {
            spoken_samples(updates, user)
        } else {
            SAMPLES_PER_TICK as nat
        },
{
    let tick = (call.tick_count + 1) as u64;
    let before = call.streams[user];
    assert(before.wf());
    if spoke(updates, user) {
        lemma_pushed_samples(before, updates, user, tick);
    } else {
        lemma_silence_packet();
        lemma_push(before, silence_packet(), tick);
    }
}

/// Synchronisation: in a call whose streams keep time, any two participants
/// whose streams take packets have the same number of samples once their
/// buffers are flushed, and when such a stream is finished its last page
/// ends at that number.
pub proof fn lemma_synchronised(call: CallView, a: u64, b: u64)
    requires
        call.wf(),
        call.in_sync(),
        call.known(a),
        call.known(b),
        call.streams[a].accepting(),
        call.streams[b].accepting(),
    ensures
        call.streams[a].final_granule() == call.streams[b].final_granule(),
        call.streams[a].finish().phase is Finished ==> call.streams[a].finish().granule
            == SAMPLES_PER_TICK * call.tick_count,
        call.streams[b].finish().phase is Finished ==> call.streams[b].finish().granule
            == SAMPLES_PER_TICK * call.tick_count,
{
    assert(call.streams[a].wf());
    assert(call.streams[b].wf());
    lemma_dump(call.streams[a], true);
    lemma_dump(call.streams[b], true);
}

} // verus!

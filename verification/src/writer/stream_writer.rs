//! The writer of one participant's stream. It takes the participant's Opus
//! packets tick by tick, fills what is missing with silence, and emits the
//! pages of the stream as bytes for the participant's file.

use crate::error::ErrorKind;
use crate::muxer::ogg::{
    lemma_lacing_sum_bound, OggHeader, OggSegments, MAX_SEGMENTS_PER_FRAME,
};
use crate::muxer::ogg_opus::{CommentHeader, IdHeader, MappingFamily, PRESKIP_DEFAULT};
use crate::muxer::opus_toc::{Bandwidth, OpusToc};
use crate::writer::names::{spec_stream_file_name, stream_file_name};
use crate::writer::stream_model::{
    file_bytes, flatten, id_packet, lacings_of, lemma_dump, lemma_emit_audio, lemma_fill_silence,
    lemma_header_packets, lemma_lacings_count, lemma_lacings_cover_payload, lemma_packet_appended,
    lemma_packet_samples_bound, lemma_push, lemma_same_pages, lemma_samples_bound,
    lemma_silence_packet, lemma_silence_packets, lemma_single_packet, lemma_start,
    lemma_suffix_extended, lemma_vendor, samples_of, silence_packet, silence_packets, tags_packet,
    tocs_of, valid_packet, valid_packets, PageRecord, StreamPhase, StreamView,
    MAX_SAMPLES_PER_PAGE,
};
use rand::Rng;
use vstd::prelude::*;
use vstd::string::StringExecFns;

verus! {

/// The packets that wait for the next page of a stream.
pub struct PacketBuffer {
    /// The bytes of the packets, one packet behind the other.
    pub opus: Vec<u8>,
    /// What the first byte of each packet says.
    pub tocs: Vec<OpusToc>,
    /// The lacing values of the packets.
    pub segments: OggSegments,
    /// The samples that the packets stand for.
    pub total_samples: usize,
    /// The packets.
    pub packets: Ghost<Seq<Seq<u8>>>,
}

impl View for PacketBuffer {
    type V = Seq<Seq<u8>>;

    /// The packets, the first one first.
    open spec fn view(&self) -> Seq<Seq<u8>> {
        self.packets@
    }
}

impl PacketBuffer {
    /// The fields of a buffer say the same of its packets: the bytes are
    /// those of the packets, there is one decoded first byte and one run of
    /// lacing values for every packet, and the samples are those of the
    /// packets.
    pub open spec fn wf(&self) -> bool {
        &&& self.segments.wf()
        &&& self.opus@ == flatten(self@)
        &&& self.tocs@ == tocs_of(self@)
        &&& self.segments@ == lacings_of(self@)
        &&& self.total_samples == samples_of(self@)
        &&& valid_packets(self@)
    }

    /// An empty buffer.
    pub fn new() -> (buffer: Self)
        ensures
            buffer.wf(),
            buffer@ == Seq::<Seq<u8>>::empty(),
    {
        let buffer = Self {
            opus: Vec::new(),
            tocs: Vec::new(),
            segments: OggSegments::new(),
            total_samples: 0,
            packets: Ghost(Seq::empty()),
        };
        proof {
            assert(buffer.tocs@ =~= tocs_of(buffer@));
        }
        buffer
    }

    /// Empties the buffer.
    pub fn clear(&mut self)
        ensures
            final(self).wf(),
            final(self)@ == Seq::<Seq<u8>>::empty(),
    {
        self.opus.clear();
        self.tocs.clear();
        self.segments.clear();
        self.total_samples = 0;
        self.packets = Ghost(Seq::empty());
        proof {
            assert(self.tocs@ =~= tocs_of(self@));
        }
    }

    /// Adds the packet `opus_data`, for which the lacing table has room.
    pub fn append(&mut self, opus_data: &[u8])
        requires
            old(self).wf(),
            valid_packet(opus_data@),
            lacings_of(old(self)@).len() + opus_data@.len() / 255 + 1 <= 255,
        ensures
            final(self).wf(),
            final(self)@ == old(self)@.push(opus_data@),
    {
        let toc = OpusToc::from(opus_data[0]);
        proof {
            lemma_packet_appended(self@, opus_data@);
            lemma_samples_bound(self@);
            lemma_lacings_count(self@);
            lemma_packet_samples_bound(opus_data@);
        }
        self.segments.push_packet(opus_data.len());
        self.total_samples += toc.sample_count();
        self.tocs.push(toc);
        self.opus.extend_from_slice(opus_data);
        self.packets = Ghost(self.packets@.push(opus_data@));
        proof {
            assert(self.tocs@ =~= tocs_of(self@));
            assert(self.opus@ =~= flatten(self@));
        }
    }
}

/// The counters of a stream and its buffer.
pub struct OpusState {
    sequence: u32,
    granule: u64,
    tick_count: u64,
    phase: StreamPhase,
    packet_buffer: PacketBuffer,
}

/// The writer of one participant's stream.
pub struct StreamWriter {
    guild_id: u64,
    user_id: u64,
    serial: u32,
    state: OpusState,
    outbox: Vec<u8>,
    file_name: String,
    pages: Ghost<Seq<PageRecord>>,
}

/// `rand::rng().random::<u32>()`: a number from the thread's random number
/// generator. Nothing is claimed of the number.
#[verifier::external_body]
pub(crate) fn random_serial() -> (serial: u32) {
    rand::rng().random::<u32>()
}

impl View for StreamWriter {
    type V = StreamView;

    closed spec fn view(&self) -> StreamView {
        StreamView {
            serial: self.serial,
            sequence: self.state.sequence,
            granule: self.state.granule,
            tick_count: self.state.tick_count,
            phase: self.state.phase,
            buffer: self.state.packet_buffer@,
            pages: self.pages@,
            outbox: self.outbox@,
        }
    }
}

impl StreamWriter {
    /// The buffer of the writer is well formed.
    pub closed spec fn inv(&self) -> bool {
        self.state.packet_buffer.wf()
    }

    /// The writer is well formed, and so is the stream that it stands for.
    pub open spec fn wf(&self) -> bool {
        self.inv() && self@.wf()
    }

    /// The call that the stream belongs to.
    pub closed spec fn spec_guild_id(&self) -> u64 {
        self.guild_id
    }

    /// The participant whose stream this is.
    pub closed spec fn spec_user_id(&self) -> u64 {
        self.user_id
    }

    /// The name of the file of the stream.
    pub closed spec fn spec_file_name(&self) -> Seq<char> {
        self.file_name@
    }

    /// A started stream of the participant `user_id` of the call
    /// `guild_id`, with a random serial number. Its two header pages wait to
    /// be handed out.
    pub fn new(guild_id: u64, user_id: u64, user_name: Option<String>) -> (stream: Self)
        ensures
            stream.wf(),
            stream@ == StreamView::fresh(stream@.serial).start(),
            stream.spec_guild_id() == guild_id,
            stream.spec_user_id() == user_id,
            stream.spec_file_name() == spec_stream_file_name(user_id, user_name),
    {
        let rand_serial = random_serial();
        Self::with_serial(guild_id, user_id, user_name, rand_serial)
    }

    /// A started stream with the serial number `serial`.
    pub fn with_serial(guild_id: u64, user_id: u64, user_name: Option<String>, serial: u32) -> (stream:
        Self)
        ensures
            stream.wf(),
            stream@ == StreamView::fresh(serial).start(),
            stream.spec_guild_id() == guild_id,
            stream.spec_user_id() == user_id,
            stream.spec_file_name() == spec_stream_file_name(user_id, user_name),
    {
        let file_name = stream_file_name(user_id, user_name);
        let state = OpusState {
            sequence: 0,
            granule: 0,
            tick_count: 0,
            phase: StreamPhase::Fresh,
            packet_buffer: PacketBuffer::new(),
        };
        let mut stream = Self {
            guild_id,
            user_id,
            serial,
            state,
            outbox: Vec::new(),
            file_name,
            pages: Ghost(Seq::empty()),
        };
        proof {
            assert(stream@ =~= StreamView::fresh(serial));
            assert(file_bytes(stream@.pages).skip(0) =~= stream@.outbox);
        }
        stream.start();
        stream
    }

    /// Whether the stream takes packets and emits pages.
    fn accepting(&self) -> (yes: bool)
        ensures
            yes == self@.accepting(),
    {
        match self.state.phase {
            StreamPhase::Started => true,
            StreamPhase::Running => true,
            _ => false,
        }
    }

    /// Hands the bytes of the next page to the outbox and notes the page.
    fn record_page(&mut self, page_data: Vec<u8>, granule: u64, Ghost(page): Ghost<PageRecord>)
        requires
            old(self)@.sequence < u32::MAX,
            page_data@ == page.bytes(),
            page.header.granule == granule,
        ensures
            final(self)@ == old(self)@.emit(page),
            final(self).inv() == old(self).inv(),
            final(self).spec_guild_id() == old(self).spec_guild_id(),
            final(self).spec_user_id() == old(self).spec_user_id(),
            final(self).spec_file_name() == old(self).spec_file_name(),
    {
        self.outbox.extend_from_slice(page_data.as_slice());
        self.pages = Ghost(self.pages@.push(page));
        self.state.granule = granule;
        self.state.sequence += 1;
        proof {
            assert(self.outbox@ =~= old(self).outbox@ + page.bytes());
        }
    }

    /// Emits the two header pages of a fresh stream: the identification
    /// header on page 0, which begins the stream, and the comment header on
    /// page 1. A stream that is not fresh stays as it is.
    pub fn start(&mut self)
        requires
            old(self).wf(),
        ensures
            final(self).wf(),
            final(self)@ == old(self)@.start(),
            final(self).spec_guild_id() == old(self).spec_guild_id(),
            final(self).spec_user_id() == old(self).spec_user_id(),
            final(self).spec_file_name() == old(self).spec_file_name(),
    {
        match self.state.phase {
            StreamPhase::Fresh => {},
            _ => {
                return ;
            },
        }
        proof {
            lemma_start(self@);
            lemma_header_packets();
            lemma_vendor();
            lemma_single_packet(id_packet());
            lemma_single_packet(tags_packet());
        }

        let opus_id_header = IdHeader {
            channel_count: 2,
            preskip: PRESKIP_DEFAULT,
            input_sample_rate: Bandwidth::Fullband.sample_rate(),
            gain: 0,
            mapping_family: MappingFamily::Rtp,
        };
        let opus_id_data = opus_id_header.build();

        let id_page_header = OggHeader {
            continuation: false,
            begin_stream: true,
            end_stream: false,
            granule: 0,
            serial: self.serial,
            sequence: 0,
        };
        let mut id_page_segments = OggSegments::new();
        id_page_segments.push_packet(opus_id_data.len());

        let ghost id_record = self@.header_page(true, id_packet());
        match id_page_header.build_page(&id_page_segments, opus_id_data.as_slice()) {
            Ok(id_page) => {
                self.record_page(id_page, 0, Ghost(id_record));
            },
            Err(_) => {
                return ;
            },
        }

        let opus_comment_header = CommentHeader {
            vendor: String::from_str("disrecord"),
            comments: Vec::new(),
        };
        let opus_comment_data = opus_comment_header.build();
        proof {
            assert(opus_comment_data@ =~= tags_packet());
        }

        let comment_page_header = OggHeader {
            continuation: false,
            begin_stream: false,
            end_stream: false,
            granule: 0,
            serial: self.serial,
            sequence: 1,
        };
        let mut comment_page_segments = OggSegments::new();
        comment_page_segments.push_packet(opus_comment_data.len());

        let ghost tags_record = self@.header_page(false, tags_packet());
        match comment_page_header.build_page(
            &comment_page_segments,
            opus_comment_data.as_slice(),
        ) {
            Ok(comment_page) => {
                self.record_page(comment_page, 0, Ghost(tags_record));
            },
            Err(_) => {
                return ;
            },
        }

        self.state.phase = StreamPhase::Started;
    }

    /// Pads the stream with silence for `ticks` voice ticks: whole pages of
    /// silence, at most 255 packets to a page, each packet moving the sample
    /// clock on by 960. The buffer is left alone.
    pub fn fill_silence(&mut self, ticks: u64)
        requires
            old(self).wf(),
        ensures
            final(self).wf(),
            final(self)@ == old(self)@.fill_silence(ticks as nat),
            final(self).spec_guild_id() == old(self).spec_guild_id(),
            final(self).spec_user_id() == old(self).spec_user_id(),
            final(self).spec_file_name() == old(self).spec_file_name(),
    {
        let silence: [u8; 3] = [0xF8, 0xFF, 0xFE];
        let mut packets_left: u64 = ticks;

        while packets_left > 0
            invariant
                self.wf(),
                silence@ == silence_packet(),
                self@.fill_silence(packets_left as nat) == old(self)@.fill_silence(ticks as nat),
                self.spec_guild_id() == old(self).spec_guild_id(),
                self.spec_user_id() == old(self).spec_user_id(),
                self.spec_file_name() == old(self).spec_file_name(),
            decreases packets_left,
        {
            if !self.accepting() {
                return ;
            }
            if self.state.sequence == u32::MAX {
                proof {
                    lemma_fill_silence(self@, packets_left as nat);
                }
                self.state.phase = StreamPhase::Failed;
                return ;
            }
            let page_packets: u64 = if packets_left < MAX_SEGMENTS_PER_FRAME as u64 {
                packets_left
            } else {
                MAX_SEGMENTS_PER_FRAME as u64
            };

            let mut opus_data: Vec<u8> = Vec::new();
            let mut opus_segments = OggSegments::new();
            let mut done: u64 = 0;
            proof {
                assert(silence_packets(0) =~= Seq::<Seq<u8>>::empty());
            }
            while done < page_packets
                invariant
                    done <= page_packets <= 255,
                    silence@ == silence_packet(),
                    opus_segments.wf(),
                    opus_data@ == flatten(silence_packets(done as nat)),
                    opus_segments@ == lacings_of(silence_packets(done as nat)),
                decreases page_packets - done,
            {
                proof {
                    lemma_silence_packet();
                    lemma_silence_packets(done as nat);
                    lemma_packet_appended(silence_packets(done as nat), silence_packet());
                    assert(silence_packets((done + 1) as nat) =~= silence_packets(
                        done as nat,
                    ).push(silence_packet()));
                }
                opus_data.extend_from_slice(&silence);
                opus_segments.push_packet(silence.len());
                done += 1;
                proof {
                    assert(opus_data@ =~= flatten(silence_packets(done as nat)));
                }
            }

            let ghost packets = silence_packets(page_packets as nat);
            let ghost page = self@.audio_page(false, packets);
            proof {
                lemma_silence_packets(page_packets as nat);
                lemma_lacings_cover_payload(packets);
                lemma_lacing_sum_bound(lacings_of(packets));
                lemma_emit_audio(self@, false, packets);
            }
            let last_granule: u64 = self.state.granule + 960 * page_packets;
            let page_header = OggHeader {
                continuation: false,
                begin_stream: false,
                end_stream: false,
                granule: last_granule,
                serial: self.serial,
                sequence: self.state.sequence,
            };

            match page_header.build_page(&opus_segments, opus_data.as_slice()) {
                Ok(page_data) => {
                    self.record_page(page_data, last_granule, Ghost(page));
                },
                Err(_) => {
                    self.state.phase = StreamPhase::Failed;
                    return ;
                },
            }
            packets_left -= page_packets;
        }
    }

    /// Flushes the buffer into one page and moves the sample clock on by the
    /// samples of the buffered packets. With `finalize` set the page ends
    /// the stream.
    pub fn dump(&mut self, finalize: bool)
        requires
            old(self).wf(),
        ensures
            final(self).wf(),
            final(self)@ == old(self)@.dump(finalize),
            final(self).spec_guild_id() == old(self).spec_guild_id(),
            final(self).spec_user_id() == old(self).spec_user_id(),
            final(self).spec_file_name() == old(self).spec_file_name(),
    {
        proof {
            lemma_dump(self@, finalize);
        }
        if !self.accepting() {
            return ;
        }
        if self.state.sequence == u32::MAX {
            self.state.phase = StreamPhase::Failed;
            return ;
        }
        let ghost packets = self@.buffer;
        let ghost page = self@.audio_page(finalize, packets);
        proof {
            lemma_samples_bound(packets);
            lemma_lacings_count(packets);
            lemma_lacings_cover_payload(packets);
            lemma_lacing_sum_bound(lacings_of(packets));
        }

        let granule: u64 = self.state.granule + self.state.packet_buffer.total_samples as u64;

        let page_header = OggHeader {
            continuation: false,
            begin_stream: false,
            end_stream: finalize,
            granule,
            serial: self.serial,
            sequence: self.state.sequence,
        };

        match page_header.build_page(
            &self.state.packet_buffer.segments,
            self.state.packet_buffer.opus.as_slice(),
        ) {
            Ok(page_data) => {
                self.record_page(page_data, granule, Ghost(page));
                self.state.packet_buffer.clear();
                if finalize {
                    self.state.phase = StreamPhase::Finished;
                }
            },
            Err(_) => {
                self.state.phase = StreamPhase::Failed;
            },
        }
    }

    /// Takes one packet of silence at tick `tick_count`.
    pub fn push_silence(&mut self, tick_count: u64) -> (warning: Option<ErrorKind>)
        requires
            old(self).wf(),
        ensures
            final(self).wf(),
            final(self)@ == old(self)@.push_silence(tick_count),
            warning == if old(self)@.discontinuous(tick_count) {
                Some(ErrorKind::DiscontinuousTick)
            } else {
                None
            },
            final(self).spec_guild_id() == old(self).spec_guild_id(),
            final(self).spec_user_id() == old(self).spec_user_id(),
            final(self).spec_file_name() == old(self).spec_file_name(),
    {
        let silence: [u8; 3] = [0xF8, 0xFF, 0xFE];
        proof {
            lemma_silence_packet();
            assert(silence@ =~= silence_packet());
        }
        self.push(&silence, tick_count)
    }

    /// Takes the packet `opus_data` at tick `tick_count`. The buffer is
    /// flushed first where the packet would not fit into its lacing table or
    /// where it holds more than 200,000 samples. A tick that does not follow
    /// the tick of the packet before is reported, and the packet is taken
    /// all the same. A stream that is not running stays as it is.
    pub fn push(&mut self, opus_data: &[u8], tick_count: u64) -> (warning: Option<ErrorKind>)
        requires
            old(self).wf(),
            valid_packet(opus_data@),
        ensures
            final(self).wf(),
            final(self)@ == old(self)@.push(opus_data@, tick_count),
            warning == if old(self)@.discontinuous(tick_count) {
                Some(ErrorKind::DiscontinuousTick)
            } else {
                None
            },
            final(self).spec_guild_id() == old(self).spec_guild_id(),
            final(self).spec_user_id() == old(self).spec_user_id(),
            final(self).spec_file_name() == old(self).spec_file_name(),
    {
        proof {
            lemma_push(self@, opus_data@, tick_count);
        }
        if !self.accepting() {
            return None;
        }
        let warning = if self.state.tick_count == u64::MAX || tick_count != self.state.tick_count
            + 1 {
            Some(ErrorKind::DiscontinuousTick)
        } else {
            None
        };

        let dump = self.state.packet_buffer.segments.would_split(opus_data.len()).is_some()
            || self.state.packet_buffer.total_samples > MAX_SAMPLES_PER_PAGE;

        if dump {
            self.dump(false);
        }
        if !self.accepting() {
            return warning;
        }
        self.state.tick_count = tick_count;
        self.state.packet_buffer.append(opus_data);
        self.state.phase = StreamPhase::Running;
        warning
    }

    /// Flushes the buffer into the last page of the stream.
    pub fn finish(&mut self)
        requires
            old(self).wf(),
        ensures
            final(self).wf(),
            final(self)@ == old(self)@.finish(),
            final(self).spec_guild_id() == old(self).spec_guild_id(),
            final(self).spec_user_id() == old(self).spec_user_id(),
            final(self).spec_file_name() == old(self).spec_file_name(),
    {
        self.dump(true)
    }

    /// Gives the stream up: it takes no packet and emits no page from now
    /// on.
    pub fn mark_failed(&mut self)
        requires
            old(self).wf(),
        ensures
            final(self).wf(),
            final(self)@ == old(self)@.fail(),
            final(self).spec_guild_id() == old(self).spec_guild_id(),
            final(self).spec_user_id() == old(self).spec_user_id(),
            final(self).spec_file_name() == old(self).spec_file_name(),
    {
        proof {
            lemma_same_pages(self@, self@.fail());
        }
        self.state.phase = StreamPhase::Failed;
    }

    /// Hands out the bytes that were emitted since the last call, for the
    /// stream's file.
    pub fn take_output(&mut self) -> (bytes: Vec<u8>)
        requires
            old(self).wf(),
        ensures
            final(self).wf(),
            bytes@ == old(self)@.outbox,
            final(self)@ == old(self)@.drained(),
            final(self).spec_guild_id() == old(self).spec_guild_id(),
            final(self).spec_user_id() == old(self).spec_user_id(),
            final(self).spec_file_name() == old(self).spec_file_name(),
    {
        let mut bytes: Vec<u8> = Vec::new();
        proof {
            lemma_suffix_extended(self@.outbox, file_bytes(self@.pages), Seq::empty());
            lemma_same_pages_drained(self@);
        }
        std::mem::swap(&mut bytes, &mut self.outbox);
        bytes
    }

    /// The serial number of the stream.
    pub fn serial(&self) -> (serial: u32)
        ensures
            serial == self@.serial,
    {
        self.serial
    }

    /// The number of the next page.
    pub fn sequence(&self) -> (sequence: u32)
        ensures
            sequence == self@.sequence,
    {
        self.state.sequence
    }

    /// The sample clock at the end of the last page.
    pub fn granule(&self) -> (granule: u64)
        ensures
            granule == self@.granule,
    {
        self.state.granule
    }

    /// The tick of the last packet taken.
    pub fn tick_count(&self) -> (tick_count: u64)
        ensures
            tick_count == self@.tick_count,
    {
        self.state.tick_count
    }

    /// Where the stream stands in its life.
    pub fn phase(&self) -> (phase: StreamPhase)
        ensures
            phase == self@.phase,
    {
        self.state.phase
    }

    /// The samples of the packets that wait for the next page.
    pub fn buffered_samples(&self) -> (samples: usize)
        requires
            self.wf(),
        ensures
            samples == samples_of(self@.buffer),
    {
        self.state.packet_buffer.total_samples
    }

    /// The call that the stream belongs to.
    pub fn guild_id(&self) -> (guild_id: u64)
        ensures
            guild_id == self.spec_guild_id(),
    {
        self.guild_id
    }

    /// The participant whose stream this is.
    pub fn user_id(&self) -> (user_id: u64)
        ensures
            user_id == self.spec_user_id(),
    {
        self.user_id
    }

    /// The name of the file of the stream.
    pub fn file_name(&self) -> (name: &String)
        ensures
            name@ == self.spec_file_name(),
    {
        &self.file_name
    }
}

/// A stream whose bytes were handed out keeps what holds of its pages.
proof fn lemma_same_pages_drained(v: StreamView)
    requires
        v.wf(),
    ensures
        v.drained().wf(),
{
    lemma_suffix_extended(v.outbox, file_bytes(v.pages), Seq::empty());
    assert forall|i: int| 0 <= i < v.pages.len() implies #[trigger] v.drained().page_ok(i) by {
        assert(v.page_ok(i));
    }
}

} // verus!

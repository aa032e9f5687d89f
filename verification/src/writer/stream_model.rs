//! The life of one participant's stream as mathematics: the pages that the
//! stream has emitted, the packets that wait for the next page, and the
//! steps that lead from one state to the next.

use crate::muxer::crc::crc32;
use crate::muxer::le::{le_bytes, lemma_le_bytes_len};
use crate::muxer::ogg::{
    checksum_zeroed, ends_packet, lacing, lacing_sum, lemma_lacing_round_trip_appended,
    lemma_lacing_sum_concat, lemma_lacing_sum_of_packet, lemma_page_capture_and_checksum,
    overflow_bytes, packet_lengths, page_bytes, OggHeader,
};
use crate::muxer::ogg_opus::{
    length_prefixed, opus_tags_magic, IdHeader, MappingFamily, PRESKIP_DEFAULT,
};
use crate::muxer::opus_toc::{decode_toc, OpusToc};
use vstd::prelude::*;
use vstd::utf8::encode_utf8;

verus! {

/// A page is flushed before a packet is added to more than this many
/// buffered samples.
pub const MAX_SAMPLES_PER_PAGE: usize = 200_000;

/// The longest packet that one page can carry whole: one byte short of 255
/// full segments.
pub const MAX_PACKET_LEN: usize = 65_024;

/// The number of samples of one packet of silence, and of one voice tick.
pub const SAMPLES_PER_TICK: u64 = 960;

/// The most samples that the packets of one page can stand for: 255 packets
/// of 60 ms each.
pub const MAX_SAMPLES_PER_FULL_PAGE: u64 = 734_400;

/// Where a stream stands in its life.
#[derive(Debug, Clone, Copy, PartialEq, Eq, Structural)]
pub enum StreamPhase {
    /// Nothing was emitted yet.
    Fresh,
    /// The two header pages were emitted.
    Started,
    /// At least one packet was taken.
    Running,
    /// The last page was emitted. Nothing follows.
    Finished,
    /// The stream was given up. Nothing follows.
    Failed,
}

/// A 20 ms fullband CELT frame of silence.
pub open spec fn silence_packet() -> Seq<u8> {
    seq![0xf8u8, 0xffu8, 0xfeu8]
}

/// `count` packets of silence.
pub open spec fn silence_packets(count: nat) -> Seq<Seq<u8>> {
    Seq::new(count, |i: int| silence_packet())
}

/// A packet that a stream takes: it has a first byte, and one page can
/// carry it whole.
pub open spec fn valid_packet(data: Seq<u8>) -> bool {
    1 <= data.len() <= MAX_PACKET_LEN
}

/// Whether every packet of a list can be taken.
pub open spec fn valid_packets(packets: Seq<Seq<u8>>) -> bool {
    forall|k: int| 0 <= k < packets.len() ==> valid_packet(#[trigger] packets[k])
}

/// The samples of one packet, by its first byte.
pub open spec fn packet_samples(packet: Seq<u8>) -> nat {
    decode_toc(packet[0]).spec_sample_count()
}

/// The payload of a page: its packets, one behind the other.
pub open spec fn flatten(packets: Seq<Seq<u8>>) -> Seq<u8>
    decreases packets.len(),
{
    if packets.len() == 0 {
        Seq::empty()
    } else {
        flatten(packets.drop_last()) + packets.last()
    }
}

/// The lacing values of a page: those of its packets, one behind the other.
pub open spec fn lacings_of(packets: Seq<Seq<u8>>) -> Seq<u8>
    decreases packets.len(),
{
    if packets.len() == 0 {
        Seq::empty()
    } else {
        lacings_of(packets.drop_last()) + lacing(packets.last().len())
    }
}

/// The samples that a list of packets stands for.
pub open spec fn samples_of(packets: Seq<Seq<u8>>) -> nat
    decreases packets.len(),
{
    if packets.len() == 0 {
        0
    } else {
        samples_of(packets.drop_last()) + packet_samples(packets.last())
    }
}

/// What the first bytes of a list of packets say, packet by packet.
pub open spec fn tocs_of(packets: Seq<Seq<u8>>) -> Seq<OpusToc> {
    Seq::new(packets.len(), |k: int| decode_toc(packets[k][0]))
}

/// The identification header packet of every stream: stereo, the default
/// pre-skip, 48 kHz, no gain, mapping family 0.
pub open spec fn id_packet() -> Seq<u8> {
    (IdHeader {
        channel_count: 2,
        preskip: PRESKIP_DEFAULT,
        input_sample_rate: 48_000,
        gain: 0,
        mapping_family: MappingFamily::Rtp,
    }).spec_build()
}

/// The comment header packet of every stream: the vendor string and no user
/// comments.
pub open spec fn tags_packet() -> Seq<u8> {
    opus_tags_magic() + length_prefixed(encode_utf8("disrecord"@)) + le_bytes(0, 4)
}

/// One page as a stream emitted it.
pub struct PageRecord {
    /// The header of the page.
    pub header: OggHeader,
    /// The packets that the page carries.
    pub packets: Seq<Seq<u8>>,
    /// Whether the packets are audio. The packets of the two header pages
    /// are not.
    pub audio: bool,
}

impl PageRecord {
    /// The samples of the audio packets on the page.
    pub open spec fn samples(self) -> nat {
        if self.audio {
            samples_of(self.packets)
        } else {
            0
        }
    }

    /// The bytes of the page.
    pub open spec fn bytes(self) -> Seq<u8> {
        page_bytes(self.header, lacings_of(self.packets), flatten(self.packets))
    }
}

/// The bytes of a run of pages.
pub open spec fn file_bytes(pages: Seq<PageRecord>) -> Seq<u8>
    decreases pages.len(),
{
    if pages.len() == 0 {
        Seq::empty()
    } else {
        file_bytes(pages.drop_last()) + pages.last().bytes()
    }
}

/// The sample clock at the end of a run of pages.
pub open spec fn end_granule(pages: Seq<PageRecord>) -> nat {
    if pages.len() == 0 {
        0
    } else {
        pages.last().header.granule as nat
    }
}

/// Whether `tail` is the end of `whole`.
pub open spec fn is_suffix(tail: Seq<u8>, whole: Seq<u8>) -> bool {
    tail.len() <= whole.len() && whole.skip(whole.len() - tail.len()) == tail
}

/// The state of one stream.
#[verifier::ext_equal]
pub struct StreamView {
    /// The number of the stream.
    pub serial: u32,
    /// The number of the next page.
    pub sequence: u32,
    /// The sample clock at the end of the last page.
    pub granule: u64,
    /// The tick of the last packet taken.
    pub tick_count: u64,
    /// Where the stream stands in its life.
    pub phase: StreamPhase,
    /// The packets that wait for the next page.
    pub buffer: Seq<Seq<u8>>,
    /// Every page emitted so far, the first one first.
    pub pages: Seq<PageRecord>,
    /// The bytes emitted and not yet handed out.
    pub outbox: Seq<u8>,
}

impl StreamView {
    /// A stream before its first page.
    pub open spec fn fresh(serial: u32) -> StreamView {
        StreamView {
            serial,
            sequence: 0,
            granule: 0,
            tick_count: 0,
            phase: StreamPhase::Fresh,
            buffer: Seq::empty(),
            pages: Seq::empty(),
            outbox: Seq::empty(),
        }
    }

    /// Whether the stream takes packets and emits pages.
    pub open spec fn accepting(self) -> bool {
        self.phase is Started || self.phase is Running
    }

    /// The sample clock that the stream reaches once its buffer is flushed.
    pub open spec fn final_granule(self) -> nat {
        self.granule as nat + samples_of(self.buffer)
    }

    /// The header of the next page, which adds `samples` to the clock.
    pub open spec fn next_header(self, begin: bool, end: bool, samples: nat) -> OggHeader {
        OggHeader {
            continuation: false,
            begin_stream: begin,
            end_stream: end,
            granule: (self.granule as nat + samples) as u64,
            serial: self.serial,
            sequence: self.sequence,
        }
    }

    /// The next header page, with the one packet `packet`.
    pub open spec fn header_page(self, begin: bool, packet: Seq<u8>) -> PageRecord {
        PageRecord { header: self.next_header(begin, false, 0), packets: seq![packet], audio: false }
    }

    /// The next audio page, with `packets`.
    pub open spec fn audio_page(self, end: bool, packets: Seq<Seq<u8>>) -> PageRecord {
        PageRecord {
            header: self.next_header(false, end, samples_of(packets)),
            packets,
            audio: true,
        }
    }

    /// The stream after it emitted `page`.
    pub open spec fn emit(self, page: PageRecord) -> StreamView {
        StreamView {
            sequence: (self.sequence + 1) as u32,
            granule: page.header.granule,
            pages: self.pages.push(page),
            outbox: self.outbox + page.bytes(),
            ..self
        }
    }

    /// The stream given up.
    pub open spec fn fail(self) -> StreamView {
        StreamView { phase: StreamPhase::Failed, ..self }
    }

    /// A fresh stream emits its two header pages, the first of them marked
    /// as the beginning of the stream. Any other stream stays as it is.
    pub open spec fn start(self) -> StreamView {
        if self.phase is Fresh {
            let first = self.emit(self.header_page(true, id_packet()));
            let second = first.emit(first.header_page(false, tags_packet()));
            StreamView { phase: StreamPhase::Started, ..second }
        } else {
            self
        }
    }

    /// The stream after pages of silence for `ticks` voice ticks, at most
    /// 255 packets to a page. A stream that has run out of page numbers is
    /// given up.
    pub open spec fn fill_silence(self, ticks: nat) -> StreamView
        decreases ticks,
    {
        if !self.accepting() || ticks == 0 {
            self
        } else if self.sequence == u32::MAX {
            self.fail()
        } else {
            let count = if ticks < 255 {
                ticks
            } else {
                255
            };
            self.emit(self.audio_page(false, silence_packets(count))).fill_silence(
                (ticks - count) as nat,
            )
        }
    }

    /// The stream after it flushed its buffer into one page, the last page
    /// of the stream if `finalize` is set. A stream that has run out of page
    /// numbers is given up.
    pub open spec fn dump(self, finalize: bool) -> StreamView {
        if !self.accepting() {
            self
        } else if self.sequence == u32::MAX {
            self.fail()
        } else {
            let flushed = self.emit(self.audio_page(finalize, self.buffer));
            StreamView {
                buffer: Seq::empty(),
                phase: if finalize {
                    StreamPhase::Finished
                } else {
                    self.phase
                },
                ..flushed
            }
        }
    }

    /// Whether the buffer is flushed before a packet of `length` bytes is
    /// added: the packet would not fit into the lacing table, or the buffer
    /// holds more than `MAX_SAMPLES_PER_PAGE` samples.
    pub open spec fn must_dump(self, length: nat) -> bool {
        ||| overflow_bytes(length, (255 - lacings_of(self.buffer).len()) as nat) is Some
        ||| samples_of(self.buffer) > MAX_SAMPLES_PER_PAGE
    }

    /// The stream after it took the packet `data` at tick `tick`.
    pub open spec fn push(self, data: Seq<u8>, tick: u64) -> StreamView {
        if !self.accepting() {
            self
        } else {
            let ready = if self.must_dump(data.len()) {
                self.dump(false)
            } else {
                self
            };
            if !ready.accepting() {
                ready
            } else {
                StreamView {
                    tick_count: tick,
                    buffer: ready.buffer.push(data),
                    phase: StreamPhase::Running,
                    ..ready
                }
            }
        }
    }

    /// Whether a packet at tick `tick` does not follow the last packet
    /// taken.
    pub open spec fn discontinuous(self, tick: u64) -> bool {
        self.accepting() && tick != self.tick_count + 1
    }

    /// The stream after a packet of silence at tick `tick`.
    pub open spec fn push_silence(self, tick: u64) -> StreamView {
        self.push(silence_packet(), tick)
    }

    /// The stream after its last page.
    pub open spec fn finish(self) -> StreamView {
        self.dump(true)
    }

    /// The stream after its emitted bytes were handed out.
    pub open spec fn drained(self) -> StreamView {
        StreamView { outbox: Seq::empty(), ..self }
    }

    /// What holds of page `i` of the stream.
    pub open spec fn page_ok(self, i: int) -> bool {
        let page = self.pages[i];
        &&& page.header.sequence == i
        &&& page.header.serial == self.serial
        &&& !page.header.continuation
        &&& page.header.begin_stream == (i == 0)
        &&& page.header.end_stream ==> i == self.pages.len() - 1
        &&& page.header.granule == end_granule(self.pages.take(i)) + page.samples()
        &&& page.audio == (i >= 2)
        &&& valid_packets(page.packets)
        &&& lacings_of(page.packets).len() <= 255
    }

    /// What holds of the pages of every stream at all times: they are
    /// numbered from zero, the first two are the header pages, each page
    /// keeps what `page_ok` says, and the bytes not yet handed out are the
    /// end of the bytes of the pages.
    pub open spec fn pages_wf(self) -> bool {
        &&& self.sequence == self.pages.len()
        &&& self.granule == end_granule(self.pages)
        &&& self.granule <= MAX_SAMPLES_PER_FULL_PAGE * self.sequence
        &&& self.pages.len() > 0 ==> {
            &&& self.pages.len() >= 2
            &&& self.pages[0].packets == seq![id_packet()]
            &&& self.pages[1].packets == seq![tags_packet()]
        }
        &&& forall|i: int| 0 <= i < self.pages.len() ==> #[trigger] self.page_ok(i)
        &&& is_suffix(self.outbox, file_bytes(self.pages))
    }

    /// What holds of every stream at all times.
    pub open spec fn wf(self) -> bool {
        &&& self.pages_wf()
        &&& self.phase is Fresh ==> self.pages.len() == 0
        &&& self.accepting() || self.phase is Finished ==> self.pages.len() >= 2
        &&& self.phase is Finished ==> self.pages.last().header.end_stream
        &&& self.accepting() ==> !self.pages.last().header.end_stream
        &&& valid_packets(self.buffer)
        &&& lacings_of(self.buffer).len() <= 255
    }
}

/// A packet stands for at most 2,880 samples, whatever its first byte.
pub proof fn lemma_packet_samples_bound(packet: Seq<u8>)
    ensures
        packet_samples(packet) <= 2_880,
{
}

/// A packet of silence stands for the samples of one voice tick.
pub proof fn lemma_silence_packet()
    ensures
        valid_packet(silence_packet()),
        packet_samples(silence_packet()) == SAMPLES_PER_TICK,
        lacing(silence_packet().len()) == seq![3u8],
{
    assert(silence_packet()[0] == 0xf8u8);
    assert(lacing(3) =~= seq![3u8]);
}

/// Packets stand for at most 2,880 samples each.
pub proof fn lemma_samples_bound(packets: Seq<Seq<u8>>)
    ensures
        samples_of(packets) <= 2_880 * packets.len(),
    decreases packets.len(),
{
    if packets.len() > 0 {
        lemma_samples_bound(packets.drop_last());
        lemma_packet_samples_bound(packets.last());
    }
}

/// Every packet takes at least one lacing value.
pub proof fn lemma_lacings_count(packets: Seq<Seq<u8>>)
    ensures
        packets.len() <= lacings_of(packets).len(),
    decreases packets.len(),
{
    if packets.len() > 0 {
        lemma_lacings_count(packets.drop_last());
    }
}

/// The lacing values of a page stand for exactly the bytes of its payload,
/// and they end with the end of a packet.
pub proof fn lemma_lacings_cover_payload(packets: Seq<Seq<u8>>)
    ensures
        lacing_sum(lacings_of(packets)) == flatten(packets).len(),
        ends_packet(lacings_of(packets)),
    decreases packets.len(),
{
    if packets.len() > 0 {
        lemma_lacings_cover_payload(packets.drop_last());
        lemma_lacing_sum_concat(lacings_of(packets.drop_last()), lacing(packets.last().len()));
        lemma_lacing_sum_of_packet(packets.last().len());
    }
}

/// A reader of the lacing values of a page finds the packets of the page,
/// each with its length.
pub proof fn lemma_page_lacing_round_trip(packets: Seq<Seq<u8>>)
    ensures
        packet_lengths(lacings_of(packets), 0) == Seq::new(
            packets.len(),
            |k: int| packets[k].len(),
        ),
    decreases packets.len(),
{
    let lengths = Seq::new(packets.len(), |k: int| packets[k].len());
    if packets.len() == 0 {
        assert(packet_lengths(lacings_of(packets), 0) =~= lengths);
    } else {
        let front = packets.drop_last();
        lemma_page_lacing_round_trip(front);
        lemma_lacings_cover_payload(front);
        lemma_lacing_round_trip_appended(lacings_of(front), packets.last().len());
        assert(Seq::new(front.len(), |k: int| front[k].len()).push(packets.last().len())
            =~= lengths);
    }
}

/// One more packet adds its bytes, its lacing values and its samples.
pub proof fn lemma_packet_appended(packets: Seq<Seq<u8>>, data: Seq<u8>)
    ensures
        flatten(packets.push(data)) == flatten(packets) + data,
        lacings_of(packets.push(data)) == lacings_of(packets) + lacing(data.len()),
        samples_of(packets.push(data)) == samples_of(packets) + packet_samples(data),
        valid_packets(packets) && valid_packet(data) ==> valid_packets(packets.push(data)),
{
    assert(packets.push(data).drop_last() =~= packets);
}

/// `count` packets of silence stand for `count` voice ticks and take one
/// lacing value each.
pub proof fn lemma_silence_packets(count: nat)
    ensures
        valid_packets(silence_packets(count)),
        samples_of(silence_packets(count)) == SAMPLES_PER_TICK * count,
        lacings_of(silence_packets(count)).len() == count,
    decreases count,
{
    lemma_silence_packet();
    if count > 0 {
        let front = silence_packets((count - 1) as nat);
        lemma_silence_packets((count - 1) as nat);
        assert(silence_packets(count).drop_last() =~= front);
        assert(silence_packets(count).last() == silence_packet());
    }
}

/// The two header packets can be taken.
pub proof fn lemma_header_packets()
    ensures
        id_packet().len() == 19,
        tags_packet().len() == 25,
        valid_packet(id_packet()),
        valid_packet(tags_packet()),
{
    reveal_with_fuel(le_bytes, 5);
    lemma_le_bytes_len(PRESKIP_DEFAULT as nat, 2);
    lemma_le_bytes_len(48_000, 4);
    lemma_le_bytes_len(0, 2);
    lemma_le_bytes_len(0, 4);
    lemma_vendor();
    lemma_le_bytes_len(9, 4);
}

/// The vendor string takes nine bytes.
pub proof fn lemma_vendor()
    ensures
        encode_utf8("disrecord"@).len() == 9,
{
    reveal_strlit("disrecord");
    vstd::utf8::is_ascii_chars_encode_utf8("disrecord"@);
}

/// Bytes that end a file still end it when both grow by the same bytes.
pub proof fn lemma_suffix_extended(tail: Seq<u8>, whole: Seq<u8>, more: Seq<u8>)
    requires
        is_suffix(tail, whole),
    ensures
        is_suffix(tail + more, whole + more),
        is_suffix(Seq::<u8>::empty(), whole),
{
    assert((whole + more).skip((whole + more).len() - (tail + more).len()) =~= whole.skip(
        whole.len() - tail.len(),
    ) + more);
    assert(whole.skip(whole.len() as int) =~= Seq::<u8>::empty());
}

/// A page with one packet carries the lacing values and the bytes of that
/// packet.
pub proof fn lemma_single_packet(packet: Seq<u8>)
    ensures
        lacings_of(seq![packet]) == lacing(packet.len()),
        flatten(seq![packet]) == packet,
        lacings_of(seq![packet]).len() == packet.len() / 255 + 1,
        valid_packet(packet) ==> valid_packets(seq![packet]),
{
    assert(seq![packet] =~= Seq::<Seq<u8>>::empty().push(packet));
    lemma_packet_appended(Seq::<Seq<u8>>::empty(), packet);
    assert(lacings_of(seq![packet]) =~= lacing(packet.len()));
    assert(flatten(seq![packet]) =~= packet);
}

/// What holds of the pages of a stream depends on the pages, the number of
/// the stream, its counters and the bytes not yet handed out, and on
/// nothing else.
pub proof fn lemma_same_pages(a: StreamView, b: StreamView)
    requires
        a.pages_wf(),
        b.pages == a.pages,
        b.serial == a.serial,
        b.sequence == a.sequence,
        b.granule == a.granule,
        b.outbox == a.outbox,
    ensures
        b.pages_wf(),
{
    assert forall|i: int| 0 <= i < b.pages.len() implies #[trigger] b.page_ok(i) by {
        assert(a.page_ok(i));
    }
}

/// A stream that emits one more audio page keeps what holds of its pages.
pub proof fn lemma_emit_audio(v: StreamView, end: bool, packets: Seq<Seq<u8>>)
    requires
        v.pages_wf(),
        v.pages.len() >= 2,
        !v.pages.last().header.end_stream,
        v.sequence < u32::MAX,
        valid_packets(packets),
        lacings_of(packets).len() <= 255,
    ensures
        v.emit(v.audio_page(end, packets)).pages_wf(),
        v.emit(v.audio_page(end, packets)).granule == v.granule + samples_of(packets),
        v.emit(v.audio_page(end, packets)).pages.last().header.end_stream == end,
{
    let page = v.audio_page(end, packets);
    let r = v.emit(page);
    lemma_samples_bound(packets);
    lemma_lacings_count(packets);
    assert(r.pages.drop_last() =~= v.pages);
    lemma_suffix_extended(v.outbox, file_bytes(v.pages), page.bytes());
    assert(v.page_ok(v.pages.len() - 1));
    assert forall|i: int| 0 <= i < r.pages.len() implies #[trigger] r.page_ok(i) by {
        if i < v.pages.len() {
            assert(v.page_ok(i));
            assert(r.pages.take(i) =~= v.pages.take(i));
        } else {
            assert(r.pages.take(i) =~= v.pages);
        }
    }
}

/// A fresh stream that starts keeps what holds of every stream, and then
/// takes packets.
pub proof fn lemma_start(v: StreamView)
    requires
        v.wf(),
    ensures
        v.start().wf(),
        v.phase is Fresh ==> v.start().phase is Started && v.start().sequence == 2
            && v.start().granule == 0,
{
    if v.phase is Fresh {
        lemma_header_packets();
        let id = v.header_page(true, id_packet());
        let first = v.emit(id);
        let tags = first.header_page(false, tags_packet());
        let second = first.emit(tags);
        let r = v.start();
        lemma_single_packet(id_packet());
        lemma_single_packet(tags_packet());
        assert(first.pages.drop_last() =~= v.pages);
        assert(second.pages.drop_last() =~= first.pages);
        lemma_suffix_extended(v.outbox, file_bytes(v.pages), id.bytes());
        lemma_suffix_extended(first.outbox, file_bytes(first.pages), tags.bytes());
        assert(r.pages =~= seq![id, tags]);
        assert(r.pages.take(0) =~= Seq::<PageRecord>::empty());
        assert(r.pages.take(1) =~= seq![id]);
        assert(r.page_ok(0));
        assert(r.page_ok(1));
    }
}

/// A stream that flushes its buffer keeps what holds of every stream.
pub proof fn lemma_dump(v: StreamView, finalize: bool)
    requires
        v.wf(),
    ensures
        v.dump(finalize).wf(),
        v.dump(finalize).accepting() ==> v.dump(finalize).final_granule() == v.final_granule(),
        v.accepting() && v.dump(finalize).phase is Finished ==> v.dump(finalize).granule
            == v.final_granule(),
{
    if v.accepting() {
        if v.sequence < u32::MAX {
            lemma_emit_audio(v, finalize, v.buffer);
            lemma_same_pages(v.emit(v.audio_page(finalize, v.buffer)), v.dump(finalize));
        } else {
            lemma_same_pages(v, v.dump(finalize));
        }
    }
}

/// A stream that takes a packet keeps what holds of every stream.
pub proof fn lemma_push(v: StreamView, data: Seq<u8>, tick: u64)
    requires
        v.wf(),
        valid_packet(data),
    ensures
        v.push(data, tick).wf(),
        v.push(data, tick).accepting() ==> v.push(data, tick).final_granule() == v.final_granule()
            + packet_samples(data),
{
    if v.accepting() {
        let ready = if v.must_dump(data.len()) {
            v.dump(false)
        } else {
            v
        };
        lemma_dump(v, false);
        if ready.accepting() {
            lemma_packet_appended(ready.buffer, data);
            lemma_lacing_sum_of_packet(data.len());
            lemma_same_pages(ready, v.push(data, tick));
        }
    }
}

/// A stream that is padded with silence keeps what holds of every stream,
/// and where it still takes packets its clock has moved on by the ticks
/// padded.
pub proof fn lemma_fill_silence(v: StreamView, ticks: nat)
    requires
        v.wf(),
    ensures
        v.fill_silence(ticks).wf(),
        v.fill_silence(ticks).buffer == v.buffer,
        v.fill_silence(ticks).tick_count == v.tick_count,
        v.fill_silence(ticks).accepting() ==> v.fill_silence(ticks).granule == v.granule
            + SAMPLES_PER_TICK * ticks,
    decreases ticks,
{
    if v.accepting() && ticks > 0 && v.sequence < u32::MAX {
        let count = if ticks < 255 {
            ticks
        } else {
            255
        };
        lemma_silence_packets(count);
        lemma_emit_audio(v, false, silence_packets(count));
        let next = v.emit(v.audio_page(false, silence_packets(count)));
        lemma_fill_silence(next, (ticks - count) as nat);
    } else if v.accepting() && ticks > 0 {
        lemma_same_pages(v, v.fail());
    }
}

/// Page numbers: the pages of a stream are numbered 0, 1, 2 and so on,
/// without a gap and without a repeat.
pub proof fn lemma_page_numbers(v: StreamView, i: int)
    requires
        v.wf(),
        0 <= i < v.pages.len(),
    ensures
        v.pages[i].header.sequence == i,
        v.pages[i].header.serial == v.serial,
{
    assert(v.page_ok(i));
}

/// Granule positions: the first page ends at zero, and every later page
/// ends where the page before it ended plus the samples of the audio
/// packets that it carries.
pub proof fn lemma_granule_step(v: StreamView, i: int)
    requires
        v.wf(),
        0 <= i < v.pages.len(),
    ensures
        i == 0 ==> v.pages[i].header.granule == 0,
        i > 0 ==> v.pages[i].header.granule == v.pages[i - 1].header.granule
            + v.pages[i].samples(),
{
    assert(v.page_ok(i));
    if i > 0 {
        assert(v.pages.take(i).last() == v.pages[i - 1]);
    }
}

/// Granule positions never decrease from one page to a later one.
pub proof fn lemma_granule_monotonic(v: StreamView, i: int, j: int)
    requires
        v.wf(),
        0 <= i <= j < v.pages.len(),
    ensures
        v.pages[i].header.granule <= v.pages[j].header.granule,
    decreases j - i,
{
    if i < j {
        lemma_granule_monotonic(v, i, j - 1);
        lemma_granule_step(v, j);
    }
}

/// Stream flags: the first page, and no other, is marked as the beginning
/// of the stream; no page but the last is marked as its end; and the last
/// page of a finished stream is.
pub proof fn lemma_stream_flags(v: StreamView, i: int)
    requires
        v.wf(),
        0 <= i < v.pages.len(),
    ensures
        v.pages[i].header.begin_stream == (i == 0),
        v.pages[0].header.sequence == 0,
        i < v.pages.len() - 1 ==> !v.pages[i].header.end_stream,
        v.phase is Finished ==> v.pages.last().header.end_stream,
        !v.pages[i].header.continuation,
{
    assert(v.page_ok(i));
    assert(v.page_ok(0));
}

/// Every page of a stream begins with the capture pattern `OggS` and
/// carries in its checksum field the checksum of the page taken with that
/// field set to zero.
pub proof fn lemma_stream_page_checksum(v: StreamView, i: int)
    requires
        v.wf(),
        0 <= i < v.pages.len(),
    ensures
        v.pages[i].bytes().subrange(0, 4) == seq![0x4fu8, 0x67u8, 0x67u8, 0x53u8],
        v.pages[i].bytes().subrange(22, 26) == le_bytes(
            crc32(checksum_zeroed(v.pages[i].bytes())) as nat,
            4,
        ),
{
    let page = v.pages[i];
    lemma_page_capture_and_checksum(page.header, lacings_of(page.packets), flatten(page.packets));
}

} // verus!


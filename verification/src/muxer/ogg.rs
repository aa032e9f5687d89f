//! Ogg pages: the lacing table that records the lengths of the packets on a
//! page, and the serialisation of a page with its checksum.

use crate::error::ErrorKind;
use crate::muxer::crc::{crc32, vorbis_crc32};
use crate::muxer::le::{le_bytes, lemma_le_bytes_len, push_le_u32, push_le_u64};
use vstd::prelude::*;

verus! {

/// The most payload bytes that one page carries.
pub const MAX_PAYLOAD_PER_PAGE: usize = 65_025;

/// The most lacing values that one page carries.
pub const MAX_SEGMENTS_PER_FRAME: usize = 255;

/// The most bytes that one lacing value stands for.
pub const MAX_SEGMENT_SIZE: usize = 255;

/// The length of a page's header, before the lacing values.
pub const PAGE_HEADER_LEN: usize = 27;

/// The lacing values of one whole packet of `length` bytes: a 255 for every
/// full segment, then the length of the last, shorter segment. The last
/// value is zero when the length is a multiple of 255.
pub open spec fn lacing(length: nat) -> Seq<u8> {
    Seq::new(length / 255, |i: int| 255u8).push((length % 255) as u8)
}

/// The number of payload bytes that a run of lacing values stands for.
pub open spec fn lacing_sum(lacings: Seq<u8>) -> nat
    decreases lacings.len(),
{
    if lacings.len() == 0 {
        0
    } else {
        lacing_sum(lacings.drop_last()) + lacings.last() as nat
    }
}

/// What a table with `room` free entries takes of the lacing of a packet:
/// all of it where it fits, else as many full segments as there is room for.
pub open spec fn placed_lacing(length: nat, room: nat) -> Seq<u8> {
    if length / 255 + 1 <= room {
        lacing(length)
    } else {
        Seq::new(room, |i: int| 255u8)
    }
}

/// The bytes of a packet of `length` bytes that a table with `room` free
/// entries cannot take, where there are any.
pub open spec fn overflow_bytes(length: nat, room: nat) -> Option<usize> {
    if length / 255 + 1 <= room {
        None
    } else {
        Some((length - 255 * room) as usize)
    }
}

/// The lengths of the packets that a reader finds in a run of lacing values,
/// with `carried` bytes already read of the packet at hand: a value below
/// 255 ends a packet, a 255 continues it. A packet that the run leaves
/// unfinished is not counted.
pub open spec fn packet_lengths(lacings: Seq<u8>, carried: nat) -> Seq<nat>
    decreases lacings.len(),
{
    if lacings.len() == 0 {
        Seq::empty()
    } else if lacings[0] < 255 {
        seq![carried + lacings[0] as nat] + packet_lengths(lacings.skip(1), 0)
    } else {
        packet_lengths(lacings.skip(1), carried + 255)
    }
}

/// Whether a run of lacing values ends with the end of a packet.
pub open spec fn ends_packet(lacings: Seq<u8>) -> bool {
    lacings.len() == 0 || lacings.last() < 255
}

/// A run of lacing values stands for at most 255 bytes per value.
pub proof fn lemma_lacing_sum_bound(lacings: Seq<u8>)
    ensures
        lacing_sum(lacings) <= 255 * lacings.len(),
    decreases lacings.len(),
{
    if lacings.len() > 0 {
        lemma_lacing_sum_bound(lacings.drop_last());
    }
}

/// The bytes of two runs add up.
pub proof fn lemma_lacing_sum_concat(a: Seq<u8>, b: Seq<u8>)
    ensures
        lacing_sum(a + b) == lacing_sum(a) + lacing_sum(b),
    decreases b.len(),
{
    if b.len() == 0 {
        assert(a + b =~= a);
    } else {
        assert((a + b).drop_last() =~= a + b.drop_last());
        lemma_lacing_sum_concat(a, b.drop_last());
    }
}

/// The lacing of a packet stands for exactly the packet's bytes.
pub proof fn lemma_lacing_sum_of_packet(length: nat)
    ensures
        lacing_sum(lacing(length)) == length,
        lacing(length).len() == length / 255 + 1,
        ends_packet(lacing(length)),
{
    lemma_full_segments_sum(length / 255);
    assert(lacing(length).drop_last() =~= Seq::new(length / 255, |i: int| 255u8));
}

/// A run of `count` full segments stands for `255 * count` bytes.
pub proof fn lemma_full_segments_sum(count: nat)
    ensures
        lacing_sum(Seq::new(count, |i: int| 255u8)) == 255 * count,
    decreases count,
{
    if count > 0 {
        assert(Seq::new(count, |i: int| 255u8).drop_last() =~= Seq::new(
            (count - 1) as nat,
            |i: int| 255u8,
        ));
        lemma_full_segments_sum((count - 1) as nat);
    }
}

/// Reading `count` full segments and one last value below 255 gives one
/// packet, of the length that the values add up to.
proof fn lemma_read_one_packet(count: nat, last: u8, carried: nat)
    requires
        last < 255,
    ensures
        packet_lengths(Seq::new(count, |i: int| 255u8).push(last), carried) == seq![
            carried + 255 * count + last as nat,
        ],
    decreases count,
{
    let run = Seq::new(count, |i: int| 255u8).push(last);
    if count == 0 {
        assert(run.skip(1) =~= Seq::<u8>::empty());
        assert(packet_lengths(run.skip(1), 0) =~= Seq::<nat>::empty());
        assert(packet_lengths(run, carried) =~= seq![carried + last as nat]);
    } else {
        assert(run.skip(1) =~= Seq::new((count - 1) as nat, |i: int| 255u8).push(last));
        lemma_read_one_packet((count - 1) as nat, last, carried + 255);
    }
}

/// Reading goes on after a run that ends a packet as if it began anew.
proof fn lemma_read_after_packets(a: Seq<u8>, b: Seq<u8>, carried: nat)
    requires
        ends_packet(a),
    ensures
        packet_lengths(a + b, carried) == if a.len() == 0 {
            packet_lengths(b, carried)
        } else {
            packet_lengths(a, carried) + packet_lengths(b, 0)
        },
    decreases a.len(),
{
    if a.len() == 0 {
        assert(a + b =~= b);
    } else {
        let rest = a.skip(1);
        assert((a + b).skip(1) =~= rest + b);
        assert((a + b)[0] == a[0]);
        if rest.len() > 0 {
            assert(rest.last() == a.last());
        }
        if a[0] < 255 {
            lemma_read_after_packets(rest, b, 0);
            if rest.len() == 0 {
                assert(packet_lengths(rest, 0) =~= Seq::<nat>::empty());
                assert(packet_lengths(a, carried) =~= seq![carried + a[0] as nat]);
            } else {
                assert(packet_lengths(a + b, carried) =~= packet_lengths(a, carried)
                    + packet_lengths(b, 0));
            }
        } else {
            assert(rest.len() > 0);
            lemma_read_after_packets(rest, b, carried + 255);
        }
    }
}

/// Lacing round trip: a reader of the lacing values of a packet of `length`
/// bytes finds one packet, of `length` bytes.
pub proof fn lemma_lacing_round_trip(length: nat)
    ensures
        packet_lengths(lacing(length), 0) == seq![length],
{
    lemma_read_one_packet(length / 255, (length % 255) as u8, 0);
}

/// Lacing round trip on a table in use: where whole packets were laced
/// before, a reader finds the same packets as before and then one more, of
/// `length` bytes.
pub proof fn lemma_lacing_round_trip_appended(before: Seq<u8>, length: nat)
    requires
        ends_packet(before),
    ensures
        packet_lengths(before + lacing(length), 0) == packet_lengths(before, 0).push(length),
        ends_packet(before + lacing(length)),
{
    lemma_read_after_packets(before, lacing(length), 0);
    lemma_lacing_round_trip(length);
    if before.len() == 0 {
        assert(packet_lengths(before, 0) =~= Seq::<nat>::empty());
        assert(packet_lengths(before, 0).push(length) =~= seq![length]);
    } else {
        assert(packet_lengths(before, 0) + seq![length] =~= packet_lengths(before, 0).push(
            length,
        ));
    }
}

/// Lacing round trip through a table: where a table that holds whole
/// packets takes a packet of `length` bytes whole, a reader of the table
/// finds the packets that were there before and then one more, of `length`
/// bytes.
pub proof fn lemma_placed_lacing_round_trip(before: Seq<u8>, length: nat)
    requires
        before.len() <= MAX_SEGMENTS_PER_FRAME,
        ends_packet(before),
        overflow_bytes(length, (255 - before.len()) as nat) is None,
    ensures
        packet_lengths(before + placed_lacing(length, (255 - before.len()) as nat), 0)
            == packet_lengths(before, 0).push(length),
{
    lemma_lacing_round_trip_appended(before, length);
}

/// The lacing table of one page.
#[derive(Debug)]
pub struct OggSegments {
    lacings: Vec<u8>,
    total_size: u16,
}

impl View for OggSegments {
    type V = Seq<u8>;

    /// The lacing values, in the order in which a page carries them.
    closed spec fn view(&self) -> Seq<u8> {
        self.lacings@
    }
}

impl OggSegments {
    /// The running count of the payload bytes laced so far.
    pub closed spec fn spec_total_size(&self) -> nat {
        self.total_size as nat
    }

    /// A table holds at most 255 values, and its running size is the number
    /// of bytes that its values stand for.
    pub open spec fn wf(&self) -> bool {
        &&& self@.len() <= MAX_SEGMENTS_PER_FRAME
        &&& self.spec_total_size() == lacing_sum(self@)
    }

    /// An empty table.
    pub fn new() -> (segments: Self)
        ensures
            segments.wf(),
            segments@ == Seq::<u8>::empty(),
    {
        Self { lacings: Vec::new(), total_size: 0 }
    }

    /// Empties the table.
    pub fn clear(&mut self)
        ensures
            final(self).wf(),
            final(self)@ == Seq::<u8>::empty(),
    {
        self.lacings.clear();
        self.total_size = 0;
    }

    /// Laces a packet of `length` bytes into the table. Where the table
    /// fills up before the packet is laced whole, lacing stops there and the
    /// number of bytes not laced comes back.
    pub fn push_packet(&mut self, length: usize) -> (overflow: Option<usize>)
        requires
            old(self).wf(),
        ensures
            final(self).wf(),
            final(self)@ == old(self)@ + placed_lacing(
                length as nat,
                (255 - old(self)@.len()) as nat,
            ),
            overflow == overflow_bytes(length as nat, (255 - old(self)@.len()) as nat),
    {
        let full_segments: usize = length / MAX_SEGMENT_SIZE;
        let leftover_bytes: usize = length % MAX_SEGMENT_SIZE;
        let ghost room: nat = (255 - old(self)@.len()) as nat;

        let mut full_segments_left: usize = full_segments;

        while full_segments_left > 0
            invariant
                full_segments_left <= full_segments,
                full_segments == length / 255,
                leftover_bytes == length % 255,
                room == 255 - old(self)@.len(),
                self.lacings@ == old(self)@ + Seq::new(
                    (full_segments - full_segments_left) as nat,
                    |i: int| 255u8,
                ),
                self.lacings@.len() <= 255,
                self.total_size as nat == lacing_sum(self.lacings@),
            decreases full_segments_left,
        {
            if self.lacings.len() == MAX_SEGMENTS_PER_FRAME {
                proof {
                    assert(full_segments - full_segments_left == room);
                }
                return Some(full_segments_left * MAX_SEGMENT_SIZE + leftover_bytes);
            }
            proof {
                lemma_lacing_sum_bound(self.lacings@);
                assert(self.lacings@.push(255u8).drop_last() =~= self.lacings@);
                assert(old(self)@ + Seq::new(
                    (full_segments - full_segments_left + 1) as nat,
                    |i: int| 255u8,
                ) =~= self.lacings@.push(255u8));
            }
            self.lacings.push(255);
            self.total_size += 255;
            full_segments_left -= 1;
        }

        if self.lacings.len() == MAX_SEGMENTS_PER_FRAME {
            proof {
                assert(full_segments == room);
            }
            return Some(leftover_bytes);
        }
        proof {
            lemma_lacing_sum_bound(self.lacings@);
            assert(self.lacings@.push(leftover_bytes as u8).drop_last() =~= self.lacings@);
            assert(old(self)@ + lacing(length as nat) =~= self.lacings@.push(leftover_bytes as u8));
        }
        self.lacings.push(leftover_bytes as u8);
        self.total_size += leftover_bytes as u16;

        None
    }

    /// What `push_packet` would return for a packet of `length` bytes: the
    /// number of bytes that the table cannot take, where there are any.
    pub fn would_split(&self, length: usize) -> (overflow: Option<usize>)
        requires
            self.wf(),
        ensures
            overflow == overflow_bytes(length as nat, (255 - self@.len()) as nat),
    {
        let needed_full_segments: usize = length / MAX_SEGMENT_SIZE;
        let needed_leftover_bytes: usize = length % MAX_SEGMENT_SIZE;
        let room: usize = MAX_SEGMENTS_PER_FRAME - self.lacings.len();

        if needed_full_segments >= room {
            Some((needed_full_segments - room) * MAX_SEGMENT_SIZE + needed_leftover_bytes)
        } else {
            None
        }
    }

    /// The lacing values of the table.
    pub fn lacings(&self) -> (lacings: &Vec<u8>)
        ensures
            lacings@ == self@,
    {
        &self.lacings
    }

    /// The number of payload bytes that the table stands for.
    pub fn total_size(&self) -> (size: u16)
        requires
            self.wf(),
        ensures
            size as nat == lacing_sum(self@),
    {
        self.total_size
    }
}

/// The header of one page.
#[derive(Debug)]
pub struct OggHeader {
    /// True if the page continues a packet of the page before it.
    pub continuation: bool,
    /// True if the page is the first of its stream.
    pub begin_stream: bool,
    /// True if the page is the last of its stream.
    pub end_stream: bool,
    /// The sample clock at the end of the page.
    pub granule: u64,
    /// The number of the stream, the same on all its pages.
    pub serial: u32,
    /// The number of the page within its stream.
    pub sequence: u32,
}

/// The header-type byte: bit 0 for a continued packet, bit 1 for the first
/// page of a stream, bit 2 for the last.
pub open spec fn header_type(header: OggHeader) -> u8 {
    ((if header.continuation { 1int } else { 0int })
        + (if header.begin_stream { 2int } else { 0int })
        + (if header.end_stream { 4int } else { 0int })) as u8
}

/// A page with `checksum` in its checksum field.
pub open spec fn page_with_checksum(
    header: OggHeader,
    lacings: Seq<u8>,
    payload: Seq<u8>,
    checksum: u32,
) -> Seq<u8> {
    seq![0x4fu8, 0x67u8, 0x67u8, 0x53u8, 0u8, header_type(header)]
        + le_bytes(header.granule as nat, 8)
        + le_bytes(header.serial as nat, 4)
        + le_bytes(header.sequence as nat, 4)
        + le_bytes(checksum as nat, 4)
        + seq![lacings.len() as u8]
        + lacings
        + payload
}

/// A page as it is written: its checksum is that of the page with a zero
/// checksum field.
pub open spec fn page_bytes(header: OggHeader, lacings: Seq<u8>, payload: Seq<u8>) -> Seq<u8> {
    page_with_checksum(
        header,
        lacings,
        payload,
        crc32(page_with_checksum(header, lacings, payload, 0)),
    )
}

/// `page` with its checksum field set to zero.
pub open spec fn checksum_zeroed(page: Seq<u8>) -> Seq<u8> {
    page.subrange(0, 22) + seq![0u8, 0u8, 0u8, 0u8] + page.skip(26)
}

/// Where the fields of a page lie.
pub proof fn lemma_page_layout(
    header: OggHeader,
    lacings: Seq<u8>,
    payload: Seq<u8>,
    checksum: u32,
)
    ensures
        ({
            let page = page_with_checksum(header, lacings, payload, checksum);
            &&& page.len() == 27 + lacings.len() + payload.len()
            &&& page.subrange(0, 4) == seq![0x4fu8, 0x67u8, 0x67u8, 0x53u8]
            &&& page[4] == 0
            &&& page[5] == header_type(header)
            &&& page.subrange(6, 14) == le_bytes(header.granule as nat, 8)
            &&& page.subrange(14, 18) == le_bytes(header.serial as nat, 4)
            &&& page.subrange(18, 22) == le_bytes(header.sequence as nat, 4)
            &&& page.subrange(22, 26) == le_bytes(checksum as nat, 4)
            &&& page[26] == lacings.len() as u8
            &&& page.subrange(27, 27 + lacings.len() as int) == lacings
            &&& page.skip(27 + lacings.len() as int) == payload
        }),
{
    lemma_le_bytes_len(header.granule as nat, 8);
    lemma_le_bytes_len(header.serial as nat, 4);
    lemma_le_bytes_len(header.sequence as nat, 4);
    lemma_le_bytes_len(checksum as nat, 4);
    let page = page_with_checksum(header, lacings, payload, checksum);
    assert(page.subrange(0, 4) =~= seq![0x4fu8, 0x67u8, 0x67u8, 0x53u8]);
    assert(page.subrange(6, 14) =~= le_bytes(header.granule as nat, 8));
    assert(page.subrange(14, 18) =~= le_bytes(header.serial as nat, 4));
    assert(page.subrange(18, 22) =~= le_bytes(header.sequence as nat, 4));
    assert(page.subrange(22, 26) =~= le_bytes(checksum as nat, 4));
    assert(page.subrange(27, 27 + lacings.len() as int) =~= lacings);
    assert(page.skip(27 + lacings.len() as int) =~= payload);
}

/// Every page begins with the capture pattern `OggS`, and its checksum
/// field holds, least significant byte first, the checksum of the whole
/// page taken with that field set to zero.
pub proof fn lemma_page_capture_and_checksum(
    header: OggHeader,
    lacings: Seq<u8>,
    payload: Seq<u8>,
)
    ensures
        ({
            let page = page_bytes(header, lacings, payload);
            &&& page.len() == 27 + lacings.len() + payload.len()
            &&& page.subrange(0, 4) == seq![0x4fu8, 0x67u8, 0x67u8, 0x53u8]
            &&& page.subrange(22, 26) == le_bytes(crc32(checksum_zeroed(page)) as nat, 4)
        }),
{
    let blank = page_with_checksum(header, lacings, payload, 0);
    let checksum = crc32(blank);
    let page = page_bytes(header, lacings, payload);
    lemma_page_layout(header, lacings, payload, checksum);
    lemma_page_layout(header, lacings, payload, 0);
    lemma_checksum_field_replaced(header, lacings, payload, checksum, 0);
    reveal_with_fuel(le_bytes, 5);
    assert(le_bytes(0, 4) =~= seq![0u8, 0u8, 0u8, 0u8]);
}

/// Two pages that differ in their checksum only differ in the checksum
/// field only.
proof fn lemma_checksum_field_replaced(
    header: OggHeader,
    lacings: Seq<u8>,
    payload: Seq<u8>,
    a: u32,
    b: u32,
)
    ensures
        ({
            let with_a = page_with_checksum(header, lacings, payload, a);
            page_with_checksum(header, lacings, payload, b) == with_a.subrange(0, 22) + le_bytes(
                b as nat,
                4,
            ) + with_a.skip(26)
        }),
{
    lemma_le_bytes_len(header.granule as nat, 8);
    lemma_le_bytes_len(header.serial as nat, 4);
    lemma_le_bytes_len(header.sequence as nat, 4);
    lemma_le_bytes_len(a as nat, 4);
    lemma_le_bytes_len(b as nat, 4);
    let with_a = page_with_checksum(header, lacings, payload, a);
    assert(page_with_checksum(header, lacings, payload, b) =~= with_a.subrange(0, 22) + le_bytes(
        b as nat,
        4,
    ) + with_a.skip(26));
}

impl OggHeader {
    /// Serialises the page that carries `payload`, laced as `segments` say.
    /// A payload of more than 65,025 bytes is refused, and so is a table of
    /// more than 255 lacing values.
    pub fn build_page(&self, segments: &OggSegments, payload: &[u8]) -> (page: Result<
        Vec<u8>,
        ErrorKind,
    >)
        ensures
            payload@.len() > MAX_PAYLOAD_PER_PAGE ==> page == Err::<Vec<u8>, ErrorKind>(
                ErrorKind::PagePayloadTooLarge,
            ),
            payload@.len() <= MAX_PAYLOAD_PER_PAGE && segments@.len() > MAX_SEGMENTS_PER_FRAME
                ==> page == Err::<Vec<u8>, ErrorKind>(ErrorKind::PageSegmentsTooMany),
            payload@.len() <= MAX_PAYLOAD_PER_PAGE && segments@.len() <= MAX_SEGMENTS_PER_FRAME
                ==> page is Ok && page->Ok_0@ == page_bytes(*self, segments@, payload@),
    {
        let mut buffer: Vec<u8> = Vec::new();

        if payload.len() > MAX_PAYLOAD_PER_PAGE {
            return Err(ErrorKind::PagePayloadTooLarge);
        }
        if segments.lacings.len() > MAX_SEGMENTS_PER_FRAME {
            return Err(ErrorKind::PageSegmentsTooMany);
        }

        buffer.push(0x4f);
        buffer.push(0x67);
        buffer.push(0x67);
        buffer.push(0x53);
        buffer.push(0);

        let mut header_type: u8 = 0;
        if self.continuation {
            header_type += 0x01;
        }
        if self.begin_stream {
            header_type += 0x02;
        }
        if self.end_stream {
            header_type += 0x04;
        }
        buffer.push(header_type);

        push_le_u64(&mut buffer, self.granule);
        push_le_u32(&mut buffer, self.serial);
        push_le_u32(&mut buffer, self.sequence);

        // The checksum is computed once the rest of the page is in place.
        push_le_u32(&mut buffer, 0);

        buffer.push(segments.lacings.len() as u8);
        buffer.extend_from_slice(segments.lacings.as_slice());
        buffer.extend_from_slice(payload);

        proof {
            assert(buffer@ =~= page_with_checksum(*self, segments@, payload@, 0));
            lemma_page_layout(*self, segments@, payload@, 0);
            lemma_checksum_field_replaced(
                *self,
                segments@,
                payload@,
                0,
                crc32(page_with_checksum(*self, segments@, payload@, 0)),
            );
        }

        update_crc(&mut buffer);

        Ok(buffer)
    }
}

/// Writes the checksum of `data` into its checksum field, which the caller
/// has filled with zeros.
pub fn update_crc(data: &mut Vec<u8>)
    requires
        old(data)@.len() >= 26,
    ensures
        final(data)@ == old(data)@.subrange(0, 22) + le_bytes(crc32(old(data)@) as nat, 4) + old(
            data,
        )@.skip(26),
{
    let crc: u32 = vorbis_crc32(data.as_slice());
    let mut field: Vec<u8> = Vec::new();
    push_le_u32(&mut field, crc);
    proof {
        lemma_le_bytes_len(crc as nat, 4);
    }
    let mut i: usize = 0;
    while i < 4
        invariant
            i <= 4,
            field@ == le_bytes(crc as nat, 4),
            field@.len() == 4,
            data@.len() == old(data)@.len(),
            data@.len() >= 26,
            data@ == old(data)@.subrange(0, 22) + field@.take(i as int) + old(data)@.skip(22 + i),
        decreases 4 - i,
    {
        let byte: u8 = field[i];
        data[22 + i] = byte;
        i += 1;
    }
    proof {
        assert(field@.take(4) =~= field@);
    }
}

} // verus!

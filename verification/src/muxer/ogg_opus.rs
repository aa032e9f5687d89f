//! The two header packets with which an Opus stream in Ogg begins: the
//! identification header `OpusHead` and the comment header `OpusTags`.

use crate::muxer::le::{le_bytes, push_le_u16, push_le_u32};
use vstd::prelude::*;
use vstd::utf8::encode_utf8;

verus! {

/// The number of samples that a decoder drops at the start of a stream.
pub const PRESKIP_DEFAULT: u16 = 3840;

/// The granule position of a page on which no packet ends.
pub const GRANULE_ENTIRE_PACKET: u64 = 0xffff_ffff_ffff_ffff;

/// The magic signature `OpusHead`.
pub open spec fn opus_head_magic() -> Seq<u8> {
    seq![0x4fu8, 0x70u8, 0x75u8, 0x73u8, 0x48u8, 0x65u8, 0x61u8, 0x64u8]
}

/// The magic signature `OpusTags`.
pub open spec fn opus_tags_magic() -> Seq<u8> {
    seq![0x4fu8, 0x70u8, 0x75u8, 0x73u8, 0x54u8, 0x61u8, 0x67u8, 0x73u8]
}

/// How the channels of a stream map to the streams of its packets.
pub struct ChannelMappingTable {
    pub stream_count: u8,
    pub coupled_count: u8,
    pub channel_mapping: Vec<u8>,
}

/// The channel mapping family of a stream. Only the family for mono and
/// stereo, `Rtp`, comes without a mapping table.
pub enum MappingFamily {
    Rtp,
    Vorbis(ChannelMappingTable),
    Unidentified(ChannelMappingTable),
    Undefined(ChannelMappingTable),
}

impl ChannelMappingTable {
    /// The table as the identification header carries it: the two counts,
    /// then one byte for every channel.
    pub open spec fn spec_bytes(&self) -> Seq<u8> {
        seq![self.stream_count, self.coupled_count] + self.channel_mapping@
    }
}

impl MappingFamily {
    /// The number of the family.
    pub open spec fn spec_byte(&self) -> u8 {
        match self {
            MappingFamily::Rtp => 0,
            MappingFamily::Vorbis(_) => 1,
            MappingFamily::Unidentified(_) => 255,
            MappingFamily::Undefined(_) => 255,
        }
    }

    /// What follows the number of the family in the identification header.
    pub open spec fn spec_tail(&self) -> Seq<u8> {
        match self {
            MappingFamily::Rtp => Seq::empty(),
            MappingFamily::Vorbis(table) => table.spec_bytes(),
            MappingFamily::Unidentified(table) => table.spec_bytes(),
            MappingFamily::Undefined(table) => table.spec_bytes(),
        }
    }

    /// The number of the family.
    pub fn byte(&self) -> (number: u8)
        ensures
            number == self.spec_byte(),
    {
        match self {
            MappingFamily::Rtp => 0,
            MappingFamily::Vorbis(_) => 1,
            MappingFamily::Unidentified(_) => 255,
            MappingFamily::Undefined(_) => 255,
        }
    }
}

/// The identification header.
pub struct IdHeader {
    pub channel_count: u8,
    pub preskip: u16,
    pub input_sample_rate: u32,
    pub gain: u16,
    pub mapping_family: MappingFamily,
}

impl IdHeader {
    /// The packet of the header: the signature, version 1, the channel
    /// count, the pre-skip, the input sample rate, the output gain, the
    /// mapping family and, but for family 0, the mapping table.
    pub open spec fn spec_build(&self) -> Seq<u8> {
        opus_head_magic()
            + seq![1u8, self.channel_count]
            + le_bytes(self.preskip as nat, 2)
            + le_bytes(self.input_sample_rate as nat, 4)
            + le_bytes(self.gain as nat, 2)
            + seq![self.mapping_family.spec_byte()]
            + self.mapping_family.spec_tail()
    }

    /// Serialises the header.
    pub fn build(&self) -> (header: Vec<u8>)
        ensures
            header@ == self.spec_build(),
    {
        let mut header: Vec<u8> = Vec::new();

        header.extend_from_slice(&[0x4f, 0x70, 0x75, 0x73, 0x48, 0x65, 0x61, 0x64]);
        header.push(1);  // Version
        header.push(self.channel_count);
        push_le_u16(&mut header, self.preskip);
        push_le_u32(&mut header, self.input_sample_rate);
        push_le_u16(&mut header, self.gain);

        match &self.mapping_family {
            MappingFamily::Rtp => {
                header.push(self.mapping_family.byte());
            },
            MappingFamily::Vorbis(table)
            | MappingFamily::Unidentified(table)
            | MappingFamily::Undefined(table) => {
                header.push(self.mapping_family.byte());
                header.push(table.stream_count);
                header.push(table.coupled_count);
                header.extend_from_slice(table.channel_mapping.as_slice());
            },
        }
        proof {
            assert(header@ =~= self.spec_build());
        }

        header
    }
}

/// `bytes` behind their length as a 32-bit number.
pub open spec fn length_prefixed(bytes: Seq<u8>) -> Seq<u8> {
    le_bytes(bytes.len(), 4) + bytes
}

/// The user comments of a comment header, one behind the other, each in
/// UTF-8 behind its length.
pub open spec fn comment_list_bytes(comments: Seq<String>) -> Seq<u8>
    decreases comments.len(),
{
    if comments.len() == 0 {
        Seq::empty()
    } else {
        comment_list_bytes(comments.drop_last()) + length_prefixed(encode_utf8(comments.last()@))
    }
}

/// The comment header.
pub struct CommentHeader {
    pub vendor: String,
    pub comments: Vec<String>,
}

impl CommentHeader {
    /// Whether every length of the header can be written as a 32-bit number:
    /// that of the vendor string, the number of comments, and the length of
    /// each comment.
    pub open spec fn fits(&self) -> bool {
        &&& encode_utf8(self.vendor@).len() <= u32::MAX
        &&& self.comments@.len() <= u32::MAX
        &&& forall|i: int|
            0 <= i < self.comments@.len() ==> encode_utf8(#[trigger] self.comments@[i]@).len()
                <= u32::MAX
    }

    /// The packet of the header: the signature, the vendor string behind its
    /// length, the number of user comments, and the comments, each behind
    /// its length.
    pub open spec fn spec_build(&self) -> Seq<u8> {
        opus_tags_magic()
            + length_prefixed(encode_utf8(self.vendor@))
            + le_bytes(self.comments@.len(), 4)
            + comment_list_bytes(self.comments@)
    }

    /// Serialises the header.
    pub fn build(&self) -> (header: Vec<u8>)
        requires
            self.fits(),
        ensures
            header@ == self.spec_build(),
    {
        let mut header: Vec<u8> = Vec::new();

        header.extend_from_slice(&[0x4f, 0x70, 0x75, 0x73, 0x54, 0x61, 0x67, 0x73]);

        let vendor: &[u8] = self.vendor.as_str().as_bytes();
        push_le_u32(&mut header, vendor.len() as u32);
        header.extend_from_slice(vendor);

        push_le_u32(&mut header, self.comments.len() as u32);
        let ghost front = header@;
        proof {
            assert(front =~= opus_tags_magic() + length_prefixed(encode_utf8(self.vendor@))
                + le_bytes(self.comments@.len(), 4));
        }

        let mut i: usize = 0;
        while i < self.comments.len()
            invariant
                i <= self.comments.len(),
                self.fits(),
                header@ == front + comment_list_bytes(self.comments@.take(i as int)),
            decreases self.comments.len() - i,
        {
            let comment: &[u8] = self.comments[i].as_str().as_bytes();
            let ghost before = header@;
            push_le_u32(&mut header, comment.len() as u32);
            header.extend_from_slice(comment);
            proof {
                let done = self.comments@.take(i + 1);
                assert(done.drop_last() =~= self.comments@.take(i as int));
                assert(done.last() == self.comments@[i as int]);
                assert(header@ =~= before + length_prefixed(encode_utf8(self.comments@[i as int]@)));
            }
            i += 1;
        }
        proof {
            assert(self.comments@.take(i as int) =~= self.comments@);
        }

        header
    }
}

} // verus!

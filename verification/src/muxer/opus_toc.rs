//! The first byte of an Opus packet, its table-of-contents byte: bits 7 to 3
//! number one of 32 configurations, bit 2 tells stereo from mono, and bits 1
//! and 0 say how many frames the packet holds.

use vstd::prelude::*;

verus! {

/// The rate of the sample clock of an Opus stream in Ogg, whatever the
/// bandwidth of its packets.
pub const REFERENCE_SAMPLE_RATE: usize = 48_000;

/// What the table-of-contents byte of a packet says.
#[derive(Debug, Clone, Copy, PartialEq, Eq, Structural)]
pub struct OpusToc {
    pub mode: OpusMode,
    pub bandwidth: Bandwidth,
    pub frame_size: FrameSize,
    pub stereo: bool,
    pub frame_count: FrameCount,
}

/// The coder that produced a packet.
#[derive(Debug, Clone, Copy, PartialEq, Eq, Structural)]
pub enum OpusMode {
    Silk,
    Hybrid,
    Celt,
}

/// The audio bandwidth of a packet.
#[derive(Debug, Clone, Copy, PartialEq, Eq, Structural)]
pub enum Bandwidth {
    Narrowband,
    Mediumband,
    Wideband,
    Superwideband,
    Fullband,
}

/// The duration of one frame of a packet.
#[derive(Debug, Clone, Copy, PartialEq, Eq, Structural)]
pub enum FrameSize {
    Ms2_5,
    Ms5,
    Ms10,
    Ms20,
    Ms40,
    Ms60,
}

/// How many frames a packet holds.
#[derive(Debug, Clone, Copy, PartialEq, Eq, Structural)]
pub enum FrameCount {
    One,
    TwoEqual,
    TwoDifferent,
    Arbitrary,
}

/// The configuration number of a table-of-contents byte: its bits 7 to 3.
pub open spec fn toc_config(value: u8) -> u8 {
    value / 8
}

/// Whether bit 2 of a table-of-contents byte is set.
pub open spec fn toc_stereo(value: u8) -> bool {
    (value / 4) % 2 == 1
}

/// The frame count code of a table-of-contents byte: its bits 1 and 0.
pub open spec fn toc_frame_count_code(value: u8) -> u8 {
    value % 4
}

/// The mode of a configuration: 0 to 11 are SILK, 12 to 15 hybrid, 16 to 31
/// CELT.
pub open spec fn mode_of(config: u8) -> OpusMode {
    if config < 12 {
        OpusMode::Silk
    } else if config < 16 {
        OpusMode::Hybrid
    } else {
        OpusMode::Celt
    }
}

/// The bandwidth of a configuration.
pub open spec fn bandwidth_of(config: u8) -> Bandwidth {
    if config < 4 {
        Bandwidth::Narrowband
    } else if config < 8 {
        Bandwidth::Mediumband
    } else if config < 12 {
        Bandwidth::Wideband
    } else if config < 14 {
        Bandwidth::Superwideband
    } else if config < 16 {
        Bandwidth::Fullband
    } else if config < 20 {
        Bandwidth::Narrowband
    } else if config < 24 {
        Bandwidth::Wideband
    } else if config < 28 {
        Bandwidth::Superwideband
    } else {
        Bandwidth::Fullband
    }
}

/// The frame size of a configuration. The SILK configurations come in runs
/// of 10, 20, 40 and 60 ms, the hybrid ones in runs of 10 and 20 ms, and the
/// CELT ones in runs of 2.5, 5, 10 and 20 ms.
pub open spec fn frame_size_of(config: u8) -> FrameSize {
    if config < 12 {
        if config % 4 == 0 {
            FrameSize::Ms10
        } else if config % 4 == 1 {
            FrameSize::Ms20
        } else if config % 4 == 2 {
            FrameSize::Ms40
        } else {
            FrameSize::Ms60
        }
    } else if config < 16 {
        if config % 2 == 0 {
            FrameSize::Ms10
        } else {
            FrameSize::Ms20
        }
    } else {
        if config % 4 == 0 {
            FrameSize::Ms2_5
        } else if config % 4 == 1 {
            FrameSize::Ms5
        } else if config % 4 == 2 {
            FrameSize::Ms10
        } else {
            FrameSize::Ms20
        }
    }
}

/// The frame count that the two low bits of `code` stand for.
pub open spec fn frame_count_of(code: u8) -> FrameCount {
    if code % 4 == 0 {
        FrameCount::One
    } else if code % 4 == 1 {
        FrameCount::TwoEqual
    } else if code % 4 == 2 {
        FrameCount::TwoDifferent
    } else {
        FrameCount::Arbitrary
    }
}

/// What the table-of-contents byte `value` says.
pub open spec fn decode_toc(value: u8) -> OpusToc {
    OpusToc {
        mode: mode_of(toc_config(value)),
        bandwidth: bandwidth_of(toc_config(value)),
        frame_size: frame_size_of(toc_config(value)),
        stereo: toc_stereo(value),
        frame_count: frame_count_of(toc_frame_count_code(value)),
    }
}

impl OpusMode {
    /// The mode of configuration `value`.
    pub fn from(value: u8) -> (mode: Self)
        requires
            value < 32,
        ensures
            mode == mode_of(value),
    {
        match value {
            0..=11 => OpusMode::Silk,
            12..=15 => OpusMode::Hybrid,
            _ => OpusMode::Celt,
        }
    }
}

impl Bandwidth {
    /// The nominal sample rate of the bandwidth, in Hz.
    pub open spec fn spec_sample_rate(self) -> nat {
        match self {
            Bandwidth::Narrowband => 8_000,
            Bandwidth::Mediumband => 12_000,
            Bandwidth::Wideband => 16_000,
            Bandwidth::Superwideband => 24_000,
            Bandwidth::Fullband => 48_000,
        }
    }

    /// The nominal sample rate of the bandwidth, in Hz.
    pub fn sample_rate(self) -> (rate: u32)
        ensures
            rate == self.spec_sample_rate(),
    {
        match self {
            Bandwidth::Narrowband => 8_000,
            Bandwidth::Mediumband => 12_000,
            Bandwidth::Wideband => 16_000,
            Bandwidth::Superwideband => 24_000,
            Bandwidth::Fullband => 48_000,
        }
    }

    /// The bandwidth of configuration `value`.
    pub fn from(value: u8) -> (bandwidth: Self)
        requires
            value < 32,
        ensures
            bandwidth == bandwidth_of(value),
    {
        match value {
            0..=3 | 16..=19 => Bandwidth::Narrowband,
            4..=7 => Bandwidth::Mediumband,
            8..=11 | 20..=23 => Bandwidth::Wideband,
            12..=13 | 24..=27 => Bandwidth::Superwideband,
            _ => Bandwidth::Fullband,
        }
    }
}

impl FrameSize {
    /// The duration of the frame, in units of a ten-thousandth of a second.
    pub open spec fn spec_factor(self) -> nat {
        match self {
            FrameSize::Ms2_5 => 25,
            FrameSize::Ms5 => 50,
            FrameSize::Ms10 => 100,
            FrameSize::Ms20 => 200,
            FrameSize::Ms40 => 400,
            FrameSize::Ms60 => 600,
        }
    }

    /// The duration of the frame, in units of a ten-thousandth of a second.
    pub fn to_10_000_factor(self) -> (factor: usize)
        ensures
            factor == self.spec_factor(),
    {
        match self {
            FrameSize::Ms2_5 => 25,
            FrameSize::Ms5 => 50,
            FrameSize::Ms10 => 100,
            FrameSize::Ms20 => 200,
            FrameSize::Ms40 => 400,
            FrameSize::Ms60 => 600,
        }
    }

    /// The frame size of configuration `value`.
    pub fn from(value: u8) -> (frame_size: Self)
        requires
            value < 32,
        ensures
            frame_size == frame_size_of(value),
    {
        match value {
            0..=11 => {
                match value % 4 {
                    0 => FrameSize::Ms10,
                    1 => FrameSize::Ms20,
                    2 => FrameSize::Ms40,
                    _ => FrameSize::Ms60,
                }
            },
            12..=15 => {
                match value % 2 {
                    0 => FrameSize::Ms10,
                    _ => FrameSize::Ms20,
                }
            },
            _ => {
                match value % 4 {
                    0 => FrameSize::Ms2_5,
                    1 => FrameSize::Ms5,
                    2 => FrameSize::Ms10,
                    _ => FrameSize::Ms20,
                }
            },
        }
    }
}

impl FrameCount {
    /// The frame count that the two low bits of `value` stand for.
    pub fn from(value: u8) -> (frame_count: Self)
        ensures
            frame_count == frame_count_of(value),
    {
        let code: u8 = value & 0b11;
        assert(code == value % 4) by (bit_vector)
            requires
                code == value & 0b11,
        ;
        match code {
            0b00 => FrameCount::One,
            0b01 => FrameCount::TwoEqual,
            0b10 => FrameCount::TwoDifferent,
            _ => FrameCount::Arbitrary,
        }
    }
}

impl OpusToc {
    /// The number of samples by which one packet with this table-of-contents
    /// byte advances the sample clock: the duration of a frame at 48 kHz.
    pub open spec fn spec_sample_count(&self) -> nat {
        REFERENCE_SAMPLE_RATE as nat * self.frame_size.spec_factor() / 10_000
    }

    /// The number of samples by which one packet with this table-of-contents
    /// byte advances the sample clock: the duration of a frame at 48 kHz,
    /// whatever the bandwidth.
    pub fn sample_count(&self) -> (count: usize)
        ensures
            count == self.spec_sample_count(),
            count <= MAX_SAMPLES_PER_PACKET,
    {
        let frame_length: usize = self.frame_size.to_10_000_factor();

        (REFERENCE_SAMPLE_RATE * frame_length) / 10_000
    }

    /// Decodes the table-of-contents byte `value`.
    pub fn from(value: u8) -> (toc: Self)
        ensures
            toc == decode_toc(value),
    {
        let config: u8 = value >> 3;
        let frame_count_bits: u8 = value & 0b0000_0011;

        let stereo: bool = (value & 0b0000_0100) != 0;

        assert(config == value / 8 && config < 32) by (bit_vector)
            requires
                config == value >> 3,
        ;
        assert(frame_count_bits == value % 4) by (bit_vector)
            requires
                frame_count_bits == value & 0b0000_0011,
        ;
        assert(((value & 0b0000_0100) != 0) == ((value / 4) % 2 == 1)) by (bit_vector);

        let mode = OpusMode::from(config);
        let bandwidth = Bandwidth::from(config);
        let frame_size = FrameSize::from(config);

        let frame_count = FrameCount::from(frame_count_bits);

        Self { mode, bandwidth, frame_size, stereo, frame_count }
    }
}

/// The most samples that one packet stands for: a frame of 60 ms.
pub const MAX_SAMPLES_PER_PACKET: usize = 2_880;

/// The sample count of a packet depends on its frame size alone.
pub proof fn lemma_sample_count_by_frame_size(toc: OpusToc)
    ensures
        toc.frame_size == FrameSize::Ms2_5 ==> toc.spec_sample_count() == 120,
        toc.frame_size == FrameSize::Ms5 ==> toc.spec_sample_count() == 240,
        toc.frame_size == FrameSize::Ms10 ==> toc.spec_sample_count() == 480,
        toc.frame_size == FrameSize::Ms20 ==> toc.spec_sample_count() == 960,
        toc.frame_size == FrameSize::Ms40 ==> toc.spec_sample_count() == 1_920,
        toc.frame_size == FrameSize::Ms60 ==> toc.spec_sample_count() == 2_880,
{
}

} // verus!

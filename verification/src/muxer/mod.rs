//! Byte-level encoders: the page checksum, Ogg pages, the two Opus header
//! packets and the decoder of the first byte of an Opus packet.

pub mod crc;
pub mod le;
pub mod ogg;
pub mod ogg_opus;
pub mod opus_toc;

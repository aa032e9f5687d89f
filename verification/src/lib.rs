//! Per-participant Ogg/Opus recording of a multi-party voice call.
//!
//! Every participant of a call gets one logical Ogg bitstream. The streams of
//! a call share one sample clock, driven by the call's voice ticks, so that
//! the files line up when they are played together.

pub mod clock;
pub mod error;
pub mod muxer;
pub mod receiver;
pub mod recording;
pub mod writer;

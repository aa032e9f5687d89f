//! The writers: one stream for every participant of a call, one call writer
//! for every call, and the dispatcher that routes updates to the calls.

pub mod call_model;
pub mod call_writer;
pub mod dispatcher;
pub mod names;
pub mod stream_model;
pub mod stream_writer;
pub mod tables;
pub mod updates;

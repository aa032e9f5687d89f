//! The ways in which recording can go wrong.

use vstd::prelude::*;

verus! {

/// What went wrong. No kind ends a call: a failure concerns one stream, one
/// update or the archive that follows the call.
#[derive(Debug, Clone, Copy, PartialEq, Eq, Structural)]
pub enum ErrorKind {
    /// The output directory or a stream's file could not be created.
    IoOpen,
    /// Bytes could not be appended to a stream's file.
    IoWrite,
    /// A page was asked to carry more payload than a page can hold.
    PagePayloadTooLarge,
    /// A page was asked to carry more lacing values than a page can hold.
    PageSegmentsTooMany,
    /// An update names a call that is not being recorded.
    UnknownCall,
    /// A voice tick carries a packet of a user who was never announced.
    UnknownUserForTick,
    /// A packet's tick does not follow the tick of the packet before it.
    DiscontinuousTick,
    /// The archive of a finished call could not be built.
    ArchiveFailed,
}

} // verus!

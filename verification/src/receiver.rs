//! What the listener of a voice connection decides before it reports: whom
//! to announce when a sender shows up, and which bytes of a received payload
//! are the Opus packet.

use vstd::prelude::*;

verus! {

/// The number of bytes at the end of a received payload that belong to the
/// encryption of the voice connection and not to the Opus packet.
pub const ENCRYPTION_TRAILER_LEN: usize = 20;

/// Whether `user` has to be announced when a sender identifier turns out to
/// be the user's: the identifier was unknown before (`previous` is `None`)
/// or it belonged to somebody else. A sender that is seen again with the
/// same user is not announced again.
pub fn needs_announcement(previous: Option<u64>, user: u64) -> (announce: bool)
    ensures
        announce == (previous != Some(user)),
{
    match previous {
        None => true,
        Some(old_user) => old_user != user,
    }
}

/// The Opus packet in a received payload: the payload without the trailer
/// of the encryption.
pub fn opus_payload(payload: &[u8]) -> (opus_data: Vec<u8>)
    requires
        payload@.len() >= ENCRYPTION_TRAILER_LEN,
    ensures
        opus_data@ == payload@.take(payload@.len() - ENCRYPTION_TRAILER_LEN),
{
    let end: usize = payload.len() - ENCRYPTION_TRAILER_LEN;
    let mut opus_data: Vec<u8> = Vec::new();
    let mut i: usize = 0;
    while i < end
        invariant
            i <= end,
            end == payload@.len() - ENCRYPTION_TRAILER_LEN,
            opus_data@ == payload@.take(i as int),
        decreases end - i,
    {
        opus_data.push(payload[i]);
        proof {
            assert(opus_data@ =~= payload@.take(i + 1));
        }
        i += 1;
    }
    opus_data
}

} // verus!

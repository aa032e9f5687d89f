//! What the voice connection of a call reports: the participants that it
//! learns of, and on every voice tick the packets of those who speak.

use crate::writer::stream_model::{valid_packet, MAX_PACKET_LEN};
use vstd::prelude::*;

verus! {

/// The packet of one participant on one voice tick.
#[derive(Debug, PartialEq)]
pub struct OpusUpdate {
    pub user: u64,
    pub opus_data: Vec<u8>,
}

/// A participant that the voice connection has learned of.
#[derive(Debug, PartialEq)]
pub struct UserUpdate {
    pub user: u64,
    pub username: Option<String>,
}

/// One report of the voice connection of a call.
#[derive(Debug, PartialEq)]
pub enum VoiceUpdateType {
    /// A voice tick, with the packets of those who spoke.
    Opus(Vec<OpusUpdate>),
    /// A participant was announced.
    User(UserUpdate),
}

/// One report, with the call that it belongs to.
#[derive(Debug, PartialEq)]
pub struct VoiceUpdate {
    pub guild: u64,
    pub update: VoiceUpdateType,
}

/// Whether every packet of a voice tick can be taken: it has a first byte,
/// and one page can carry it whole.
pub open spec fn valid_updates(updates: Seq<OpusUpdate>) -> bool {
    forall|i: int| 0 <= i < updates.len() ==> valid_packet((#[trigger] updates[i]).opus_data@)
}

impl VoiceUpdateType {
    /// Whether every packet of the report can be taken.
    pub open spec fn valid(&self) -> bool {
        match self {
            VoiceUpdateType::Opus(updates) => valid_updates(updates@),
            VoiceUpdateType::User(_) => true,
        }
    }

    /// Whether every packet of the report can be taken.
    pub fn is_valid(&self) -> (valid: bool)
        ensures
            valid == self.valid(),
    {
        match self {
            VoiceUpdateType::User(_) => true,
            VoiceUpdateType::Opus(updates) => {
                let mut i: usize = 0;
                while i < updates.len()
                    invariant
                        i <= updates.len(),
                        *self == VoiceUpdateType::Opus(*updates),
                        forall|j: int|
                            0 <= j < i ==> valid_packet((#[trigger] updates@[j]).opus_data@),
                    decreases updates.len() - i,
                {
                    let length: usize = updates[i].opus_data.len();
                    if length < 1 || length > MAX_PACKET_LEN {
                        proof {
                            let packet = updates@[i as int];
                            assert(packet.opus_data@.len() == length);
                            assert(!valid_packet(packet.opus_data@));
                            assert(!valid_updates(updates@));
                        }
                        return false;
                    }
                    i += 1;
                }
                true
            },
        }
    }
}

/// Whether `user` has a packet among `updates`.
pub open spec fn spoke(updates: Seq<OpusUpdate>, user: u64) -> bool
    decreases updates.len(),
{
    if updates.len() == 0 {
        false
    } else {
        updates.last().user == user || spoke(updates.drop_last(), user)
    }
}

/// Whether no participant has two packets among `updates`.
pub open spec fn one_packet_each(updates: Seq<OpusUpdate>) -> bool
    decreases updates.len(),
{
    if updates.len() == 0 {
        true
    } else {
        !spoke(updates.drop_last(), updates.last().user) && one_packet_each(updates.drop_last())
    }
}

} // verus!

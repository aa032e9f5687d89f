//! What is known of a recording as a whole: where it goes, when it began
//! and, once it is over, when it ended and whom it recorded.

use crate::writer::names::{archive_name, decimal, decimal_string, spec_archive_name};
use vstd::prelude::*;
use vstd::string::StringExecFns;

verus! {

/// A point in time: seconds since the beginning of 1970 in UTC, and the
/// nanoseconds into the second.
#[derive(Debug, Clone, Copy, PartialEq, Eq, Structural)]
pub struct Timestamp {
    pub secs: i64,
    pub nanos: u32,
}

/// Where recordings go.
#[derive(Clone, Debug)]
pub struct RecorderConfig {
    /// The directory under which every call gets a directory of its own.
    pub base_dir: String,
    /// How the start of a recording is written in the name of its
    /// directory, in the notation of `strftime`.
    pub subdir_fmt: String,
}

/// What is fixed when a recording begins.
#[derive(Clone, Debug)]
pub struct RecordingMetadata {
    /// The call.
    pub guild_id: u64,
    /// The directory under which every call gets a directory of its own.
    pub base_dir: String,
    /// The name of the directory of this recording within the directory of
    /// its call.
    pub output_dir_name: String,
    /// When the recording began.
    pub started: Timestamp,
}

/// What is known of a recording once it is over.
#[derive(Debug)]
pub struct RecordingSummary {
    /// When the recording began.
    pub started: Timestamp,
    /// When the recording ended.
    pub ended: Timestamp,
    /// The participants that were recorded, each one once.
    pub known_users: Vec<u64>,
    /// Those of them whose stream was given up, each one once: their files
    /// end without a last page.
    pub failed_users: Vec<u64>,
    /// The name of the archive of the recording, which lies in the
    /// directory of the recording.
    pub archive_name: String,
}

/// The whole seconds from `started` to `ended`, counted towards zero: the
/// span is negative where `ended` lies before `started`, and a part of a
/// second does not count.
pub open spec fn elapsed_seconds(started: Timestamp, ended: Timestamp) -> int {
    let nanos = (ended.secs - started.secs) * 1_000_000_000 + (ended.nanos - started.nanos);
    if nanos >= 0 {
        nanos / 1_000_000_000
    } else {
        -((-nanos) / 1_000_000_000)
    }
}

/// `value` in decimal, with a minus sign where it is negative.
pub open spec fn signed_decimal(value: int) -> Seq<char> {
    if value < 0 {
        seq!['-'] + decimal((-value) as nat)
    } else {
        decimal(value as nat)
    }
}

/// `value` in decimal on at least two places: with a leading zero where it
/// is a single digit, with a minus sign where it is negative.
pub open spec fn two_digits(value: int) -> Seq<char> {
    if 0 <= value < 10 {
        seq!['0'] + decimal(value as nat)
    } else {
        signed_decimal(value)
    }
}

/// A span of `seconds` seconds as hours, minutes and seconds, such as
/// `1h 02m 03s`. Of a negative span every part that is not zero is
/// negative, as in `0h -1m -30s`.
pub open spec fn spec_duration_text(seconds: int) -> Seq<char> {
    let size = if seconds < 0 {
        -seconds
    } else {
        seconds
    };
    let sign = if seconds < 0 {
        -1int
    } else {
        1int
    };
    signed_decimal(sign * (size / 3600)) + "h "@ + two_digits(sign * ((size / 60) % 60)) + "m "@
        + two_digits(sign * (size % 60)) + "s"@
}

impl RecordingSummary {
    /// How long the recording lasted, in whole seconds counted towards
    /// zero.
    pub fn elapsed(&self) -> (seconds: i128)
        ensures
            seconds == elapsed_seconds(self.started, self.ended),
            -0x1_0000_0000_0000_0005 < seconds < 0x1_0000_0000_0000_0005,
    {
        let nanos: i128 = (self.ended.secs as i128 - self.started.secs as i128) * 1_000_000_000
            + (self.ended.nanos as i128 - self.started.nanos as i128);
        let size: i128 = if nanos >= 0 {
            nanos
        } else {
            -nanos
        };
        assert(size / 1_000_000_000 < 0x1_0000_0000_0000_0005) by (nonlinear_arith)
            requires
                0 <= size < 0x1_0000_0000_0000_0005 * 1_000_000_000,
        ;
        if nanos >= 0 {
            size / 1_000_000_000
        } else {
            -(size / 1_000_000_000)
        }
    }

    /// How long the recording lasted, as hours, minutes and seconds.
    pub fn duration_text(&self) -> (text: String)
        ensures
            text@ == spec_duration_text(elapsed_seconds(self.started, self.ended)),
    {
        let seconds: i128 = self.elapsed();
        let negative: bool = seconds < 0;
        let size: i128 = if negative {
            -seconds
        } else {
            seconds
        };
        let mut text: String = String::new();
        append_signed(&mut text, negative, (size / 3600) as u64);
        text.append("h ");
        append_two_digits(&mut text, negative, ((size / 60) % 60) as u64);
        text.append("m ");
        append_two_digits(&mut text, negative, (size % 60) as u64);
        text.append("s");
        proof {
            if negative {
                assert(-1int * (size / 3600) == signed(negative, (size / 3600) as u64));
                assert(-1int * ((size / 60) % 60) == signed(negative, ((size / 60) % 60) as u64));
                assert(-1int * (size % 60) == signed(negative, (size % 60) as u64));
            } else {
                assert(1int * (size / 3600) == signed(negative, (size / 3600) as u64));
                assert(1int * ((size / 60) % 60) == signed(negative, ((size / 60) % 60) as u64));
                assert(1int * (size % 60) == signed(negative, (size % 60) as u64));
            }
            assert(text@ =~= spec_duration_text(seconds as int));
        }
        text
    }
}

/// The number of the size `size`, negative if `negative` is set.
pub open spec fn signed(negative: bool, size: u64) -> int {
    if negative {
        -(size as int)
    } else {
        size as int
    }
}

/// Appends a number in decimal, with a minus sign where it is negative.
fn append_signed(text: &mut String, negative: bool, size: u64)
    ensures
        final(text)@ == old(text)@ + signed_decimal(signed(negative, size)),
{
    if negative && size > 0 {
        text.append("-");
    }
    let digits = decimal_string(size);
    text.append(digits.as_str());
    proof {
        reveal_strlit("-");
        assert(text@ =~= old(text)@ + signed_decimal(signed(negative, size)));
    }
}

/// Appends a number in decimal on at least two places.
fn append_two_digits(text: &mut String, negative: bool, size: u64)
    ensures
        final(text)@ == old(text)@ + two_digits(signed(negative, size)),
{
    if size < 10 && !(negative && size > 0) {
        text.append("0");
        let digits = decimal_string(size);
        text.append(digits.as_str());
        proof {
            reveal_strlit("0");
            assert(text@ =~= old(text)@ + two_digits(signed(negative, size)));
        }
    } else {
        append_signed(text, negative, size);
    }
}

impl RecordingMetadata {
    /// The directory of the recording, from the outermost directory inwards:
    /// the base directory, the number of the call in decimal, and the name
    /// of the recording.
    pub open spec fn spec_output_dir(&self) -> Seq<Seq<char>> {
        seq![self.base_dir@, decimal(self.guild_id as nat), self.output_dir_name@]
    }

    /// The directory of the recording, from the outermost directory
    /// inwards.
    pub fn output_dir(&self) -> (path: Vec<String>)
        ensures
            path@.len() == 3,
            path@[0]@ == self.base_dir@,
            path@[1]@ == decimal(self.guild_id as nat),
            path@[2]@ == self.output_dir_name@,
    {
        let mut path: Vec<String> = Vec::new();
        path.push(self.base_dir.clone());
        path.push(decimal_string(self.guild_id));
        path.push(self.output_dir_name.clone());
        path
    }

    /// The name of the archive of the recording.
    pub fn archive_name(&self) -> (name: String)
        ensures
            name@ == spec_archive_name(self.output_dir_name@),
    {
        archive_name(self.output_dir_name.as_str())
    }
}

} // verus!

//! The clock, and how a point in time is written. Both are those of the
//! `chrono` crate; what is said of them here is taken from that crate and
//! not proved.

use crate::recording::Timestamp;
use std::fmt::Write;
use vstd::prelude::*;

verus! {

/// What `chrono` writes for the point in time `secs` seconds and `nanos`
/// nanoseconds after the beginning of 1970 in UTC under the `strftime`
/// format `format`. There is nothing to write where the point in time is
/// out of the range of `chrono` or the format is not a valid one.
pub uninterp spec fn utc_formatted(secs: i64, nanos: u32, format: Seq<char>) -> Option<Seq<char>>;

/// `chrono::Utc::now`: the time of the system clock. Nothing is claimed of
/// it. The call does not return where the system clock stands before 1970.
#[verifier::external_body]
pub(crate) fn utc_now() -> (now: Timestamp) {
    let now = chrono::Utc::now();
    Timestamp { secs: now.timestamp(), nanos: now.timestamp_subsec_nanos() }
}

/// `chrono::DateTime::from_timestamp` and `chrono::DateTime::format`: the
/// point in time `time`, written under the format `format`.
#[verifier::external_body]
pub(crate) fn format_utc(time: Timestamp, format: &str) -> (text: Option<String>)
    ensures
        text.is_some() == utc_formatted(time.secs, time.nanos, format@).is_some(),
        text.is_some() ==> text.unwrap()@ == utc_formatted(time.secs, time.nanos, format@).unwrap(),
{
    match chrono::DateTime::from_timestamp(time.secs, time.nanos) {
        None => None,
        Some(time) => {
            let mut text = String::new();
            match write!(text, "{}", time.format(format)) {
                Ok(()) => Some(text),
                Err(_) => None,
            }
        },
    }
}

} // verus!

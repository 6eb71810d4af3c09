//! The clock: the raw reading of the system clock and the local-time
//! rendering of a timestamp are trusted; everything layered on them — turning
//! a reading into a whole-second Unix timestamp, falling back to decimal text
//! when no rendering exists — is verified for every value they may return.

use chrono::TimeZone;
use vstd::prelude::*;

use crate::codec::dec_int;
use crate::codec::encode_timestamp;
use crate::codec::lemma_timestamp_round_trip;
use crate::codec::timestamp_of;

verus! {

/// Relies on std's `SystemTime::now` and `SystemTime::duration_since` against
/// the Unix epoch: the clock's distance from the epoch as whole seconds and
/// leftover nanoseconds, with the flag set when the clock reads before the
/// epoch (the `Err` branch of `duration_since`). No clock value aborts, and
/// nothing can be promised of a reading beyond the documented bound on the
/// nanosecond part.
#[verifier::external_body]
fn clock_reading() -> (r: (bool, u64, u32))
    ensures
        r.2 < 1000000000,
{
    match std::time::SystemTime::now().duration_since(std::time::UNIX_EPOCH) {
        Ok(since) => (false, since.as_secs(), since.subsec_nanos()),
        Err(before) => (true, before.duration().as_secs(), before.duration().subsec_nanos()),
    }
}

/// The Unix timestamp of a clock reading: its distance from the epoch,
/// rounded toward minus infinity — a reading before the epoch with a leftover
/// fraction lands one further second back.
pub open spec fn floor_timestamp(before_epoch: bool, secs: nat, subsec_nanos: nat) -> int {
    if before_epoch {
        if subsec_nanos == 0 {
            -(secs as int)
        } else {
            -(secs as int) - 1
        }
    } else {
        secs as int
    }
}

/// An integer clamped into the signed 64-bit range.
pub open spec fn clamp_i64(v: int) -> int {
    if v < i64::MIN {
        i64::MIN as int
    } else if v > i64::MAX {
        i64::MAX as int
    } else {
        v
    }
}

/// Turns a raw clock reading into a signed 64-bit Unix timestamp: seconds
/// since the epoch, floored, negative before the epoch, saturated at the
/// 64-bit bounds.
pub fn timestamp_from_reading(before_epoch: bool, secs: u64, subsec_nanos: u32) -> (t: i64)
    ensures
        t == clamp_i64(floor_timestamp(before_epoch, secs as nat, subsec_nanos as nat)),
{
    if !before_epoch {
        if secs > 9223372036854775807u64 {
            9223372036854775807i64
        } else {
            secs as i64
        }
    } else {
        if secs >= 9223372036854775808u64 {
            -9223372036854775807i64 - 1
        } else {
            let s: i64 = secs as i64;
            if subsec_nanos == 0 {
                -s
            } else {
                -s - 1
            }
        }
    }
}

/// Relies on chrono's `TimeZone::timestamp_opt` on `Local` and
/// `DateTime::format`: renders the instant `t` seconds after the Unix epoch,
/// in the machine's local time zone, as `"%Y-%m-%d %H:%M"`; yields nothing
/// when `t` lies outside the range chrono can represent. The text depends on
/// the machine's time zone, so nothing is stated of it.
#[verifier::external_body]
pub(crate) fn local_time_string(t: i64) -> Option<String> {
    chrono::Local.timestamp_opt(t, 0).single().map(|dt| dt.format("%Y-%m-%d %H:%M").to_string())
}

/// How a last-heartbeat timestamp is shown inside the reboot announcement,
/// given what the local-time renderer yielded for it: the rendered text when
/// there is one, else the timestamp's canonical decimal seconds.
pub fn display_from(formatted: Option<String>, t: i64) -> (s: String)
    ensures
        formatted matches Some(f) ==> s@ == f@,
        formatted is None ==> s@ == dec_int(t as int),
{
    match formatted {
        Some(f) => f,
        None => encode_timestamp(t),
    }
}

/// The shown form of a last-heartbeat timestamp: the machine's local
/// wall-clock rendering, or, for the rare timestamp chrono cannot represent,
/// the plain decimal seconds. The rendering depends on the machine's time
/// zone; the dispatch on its presence is `display_from`, specified exactly
/// for every text.
pub fn heartbeat_display(t: i64) -> (s: String) {
    display_from(local_time_string(t), t)
}

/// The text the heartbeat store writes this tick: the current timestamp in
/// its canonical decimal form — guaranteed to parse back to that same
/// timestamp.
pub fn current_heartbeat_content() -> (s: String)
    ensures
        exists|t: i64| s@ == dec_int(t as int) && timestamp_of(s@) == Some(t),
{
    let reading = clock_reading();
    let t: i64 = timestamp_from_reading(reading.0, reading.1, reading.2);
    let s = encode_timestamp(t);
    proof {
        lemma_timestamp_round_trip(t);
    }
    s
}

} // verus!

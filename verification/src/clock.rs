//! Wall-clock access and timestamp rendering, built on std's system clock
//! and the `chrono` crate.

use vstd::prelude::*;

verus! {

/// The largest timestamp the core renders as text: 9999-12-31 23:59:59 UTC.
pub const MAX_TIMESTAMP: i64 = 253402300799;

/// Relies on std's `SystemTime::now`: the current wall-clock instant as
/// Unix seconds, negative for instants before 1970 and clamped to the i64
/// range. Nothing is promised of the value: it depends on the machine's
/// clock.
#[verifier::external_body]
pub fn now_unix() -> i64 {
    match std::time::SystemTime::now().duration_since(std::time::UNIX_EPOCH) {
        Ok(since) => i64::try_from(since.as_secs()).unwrap_or(i64::MAX),
        Err(before) => {
            0i64.saturating_sub(i64::try_from(before.duration().as_secs()).unwrap_or(i64::MAX))
        },
    }
}

/// The text rendering of a timestamp. The result of chrono's formatting,
/// named; it depends on the timestamp alone.
pub uninterp spec fn timestamp_text(t: int) -> Seq<char>;

/// Relies on chrono's `DateTime::from_timestamp` and `format`: for
/// timestamps between 1970 and the year 9999 the text has the 19-character
/// shape `YYYY-MM-DD HH:MM:SS` and is a deterministic function of the
/// timestamp.
#[verifier::external_body]
pub fn timestamp_text_of(t: i64) -> (r: String)
    requires
        0 <= t <= MAX_TIMESTAMP,
    ensures
        r@ == timestamp_text(t as int),
        r@.len() == 19,
{
    match chrono::DateTime::from_timestamp(t, 0) {
        Some(dt) => dt.naive_utc().format("%Y-%m-%d %H:%M:%S").to_string(),
        None => String::new(),
    }
}

} // verus!

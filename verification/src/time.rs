//! Calls into chrono for reading RFC 3339 timestamps, the clock and the
//! machine's time zone.
use chrono::{Datelike, Timelike};
use vstd::prelude::*;

verus! {

/// What chrono makes of an RFC 3339 timestamp: `DateTime::parse_from_rfc3339`,
/// rendered back with `DateTime::to_rfc3339`; `None` when parsing fails.
pub uninterp spec fn rfc3339_reading(s: Seq<char>) -> Option<Seq<char>>;

/// What chrono makes of a Unix timestamp in seconds: `DateTime::from_timestamp(secs, 0)`,
/// rendered with `DateTime::to_rfc3339`; `None` when out of range.
pub uninterp spec fn epoch_reading(secs: int) -> Option<Seq<char>>;

/// Parses `s` with chrono's `DateTime::parse_from_rfc3339` and renders the
/// result with `DateTime::to_rfc3339`. The result is named, not described.
#[verifier::external_body]
pub(crate) fn normalize_rfc3339(s: &str) -> (r: Option<String>)
    ensures
        match r {
            Some(t) => rfc3339_reading(s@) == Some(t@),
            None => rfc3339_reading(s@) is None,
        },
{
    match chrono::DateTime::parse_from_rfc3339(s) {
        Ok(dt) => Some(dt.to_rfc3339()),
        Err(_) => None,
    }
}

/// Makes a UTC date-time of `secs` seconds after the Unix epoch with chrono's
/// `DateTime::from_timestamp` and renders it with `DateTime::to_rfc3339`.
/// The result is named, not described.
#[verifier::external_body]
pub(crate) fn rfc3339_from_epoch(secs: i64) -> (r: Option<String>)
    ensures
        match r {
            Some(t) => epoch_reading(secs as int) == Some(t@),
            None => epoch_reading(secs as int) is None,
        },
{
    match chrono::DateTime::from_timestamp(secs, 0) {
        Some(dt) => Some(dt.to_rfc3339()),
        None => None,
    }
}

/// Whole seconds from now until the instant `s` names, negative once it has
/// passed: chrono's `parse_from_rfc3339`, `signed_duration_since(Utc::now())`
/// and `num_seconds`. The value depends on the clock and is not stated; only
/// that it is there exactly when `s` parses.
#[verifier::external_body]
pub(crate) fn seconds_until(s: &str) -> (r: Option<i64>)
    ensures
        r is Some <==> rfc3339_reading(s@) is Some,
{
    match chrono::DateTime::parse_from_rfc3339(s) {
        Ok(dt) => Some(
            dt.with_timezone(&chrono::Utc).signed_duration_since(chrono::Utc::now()).num_seconds(),
        ),
        Err(_) => None,
    }
}

/// Wall-clock reading in the machine's time zone.
pub struct LocalTime {
    /// Days from Monday (0 = Monday, 6 = Sunday)
    pub weekday: u32,
    pub hour: u32,
    pub minute: u32,
}

/// The local wall-clock time of the instant `s` names, `hours_later` hours on:
/// chrono's `parse_from_rfc3339`, `with_timezone(&Local)`, `+ Duration::hours`,
/// then `weekday().num_days_from_monday()`, `hour()` and `minute()`. The
/// reading depends on the machine's time zone and is not stated beyond its
/// ranges; it is there exactly when `s` parses.
#[verifier::external_body]
pub(crate) fn local_time_of(s: &str, hours_later: i64) -> (r: Option<LocalTime>)
    requires
        0 <= hours_later <= 1,
    ensures
        r is Some <==> rfc3339_reading(s@) is Some,
        r matches Some(t) ==> t.weekday < 7 && t.hour < 24 && t.minute < 60,
{
    match chrono::DateTime::parse_from_rfc3339(s) {
        Ok(dt) => {
            let local = dt.with_timezone(&chrono::Local) + chrono::Duration::hours(hours_later);
            Some(
                LocalTime {
                    weekday: local.weekday().num_days_from_monday(),
                    hour: local.hour(),
                    minute: local.minute(),
                },
            )
        },
        Err(_) => None,
    }
}

} // verus!

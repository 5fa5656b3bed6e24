//! Wall-clock readings and date parsing (through `chrono`).

use chrono::Datelike;
use vstd::prelude::*;

verus! {

/// One reading of the UTC clock.
pub struct Clock {
    /// Whole seconds since the Unix epoch.
    pub secs: i64,
    /// Nanoseconds past `secs`.
    pub nanos: u32,
    /// The UTC calendar day, counted as days from the Common Era.
    pub day: i32,
}

/// Reads `chrono::Utc::now()`. The reading depends on the time of the call,
/// so nothing is promised about it.
#[verifier::external_body]
pub(crate) fn utc_now() -> (r: Clock) {
    let now = chrono::Utc::now();
    Clock {
        secs: now.timestamp(),
        nanos: now.timestamp_subsec_nanos(),
        day: now.date_naive().num_days_from_ce(),
    }
}

/// The instant (seconds, nanoseconds since the epoch) that
/// `DateTime::parse_from_rfc2822` reads from a text, if it parses.
pub uninterp spec fn rfc2822_instant(text: Seq<char>) -> Option<(i64, u32)>;

/// The instant that `DateTime::parse_from_rfc3339` reads from a text, if it parses.
pub uninterp spec fn rfc3339_instant(text: Seq<char>) -> Option<(i64, u32)>;

/// The day (from the Common Era) that `NaiveDate::parse_from_str(text, "%Y-%m-%d")`
/// reads, if it parses.
pub uninterp spec fn ymd_day(text: Seq<char>) -> Option<i32>;

/// Calls `DateTime::parse_from_rfc2822`; the result is named [`rfc2822_instant`].
#[verifier::external_body]
fn parse_rfc2822(text: &str) -> (r: Option<(i64, u32)>)
    ensures
        r == rfc2822_instant(text@),
{
    match chrono::DateTime::parse_from_rfc2822(text) {
        Ok(d) => Some((d.timestamp(), d.timestamp_subsec_nanos())),
        Err(_) => None,
    }
}

/// Calls `DateTime::parse_from_rfc3339`; the result is named [`rfc3339_instant`].
#[verifier::external_body]
fn parse_rfc3339(text: &str) -> (r: Option<(i64, u32)>)
    ensures
        r == rfc3339_instant(text@),
{
    match chrono::DateTime::parse_from_rfc3339(text) {
        Ok(d) => Some((d.timestamp(), d.timestamp_subsec_nanos())),
        Err(_) => None,
    }
}

/// Calls `NaiveDate::parse_from_str` with `%Y-%m-%d`; the result is named [`ymd_day`].
#[verifier::external_body]
fn parse_ymd(text: &str) -> (r: Option<i32>)
    ensures
        r == ymd_day(text@),
{
    match chrono::NaiveDate::parse_from_str(text, "%Y-%m-%d") {
        Ok(d) => Some(d.num_days_from_ce()),
        Err(_) => None,
    }
}

/// Integer division rounding toward zero (how `TimeDelta` counts whole units).
pub open spec fn div_toward_zero(a: int, b: int) -> int {
    if a >= 0 {
        a / b
    } else {
        -((-a) / b)
    }
}

/// Whole days elapsed from the instant `(secs, nanos)` to `now`, as
/// `now.signed_duration_since(then).num_days()` counts them.
pub open spec fn whole_days_since(now: Clock, secs: i64, nanos: u32) -> int {
    let total = (now.secs - secs) * 1_000_000_000 + (now.nanos - nanos);
    div_toward_zero(div_toward_zero(total, 1_000_000_000), 86400)
}

fn div_toward_zero_exec(a: i128, b: i128) -> (r: i128)
    requires
        b > 0,
        -0x1_0000_0000_0000_0000_0000_0000 < a < 0x1_0000_0000_0000_0000_0000_0000,
    ensures
        r == div_toward_zero(a as int, b as int),
{
    if a >= 0 {
        a / b
    } else {
        -((-a) / b)
    }
}

/// Whole days from `(secs, nanos)` to `now`.
pub fn days_since(now: &Clock, secs: i64, nanos: u32) -> (r: i128)
    ensures
        r == whole_days_since(*now, secs, nanos),
{
    let d: i128 = now.secs as i128 - secs as i128;
    assert(-0x1_0000_0000_0000_0000 < d < 0x1_0000_0000_0000_0000);
    assert(-0x1_0000_0000_0000_0000_0000_0000 < d * 1_000_000_000 + 0x1_0000_0000 && d
        * 1_000_000_000 + 0x1_0000_0000 < 0x1_0000_0000_0000_0000_0000_0000 && d
        * 1_000_000_000 - 0x1_0000_0000 > -0x1_0000_0000_0000_0000_0000_0000) by (nonlinear_arith)
        requires
            -0x1_0000_0000_0000_0000 < d < 0x1_0000_0000_0000_0000,
    ;
    let total: i128 = d * 1_000_000_000 + (now.nanos as i128 - nanos as i128);
    let s = div_toward_zero_exec(total, 1_000_000_000);
    div_toward_zero_exec(s, 86400)
}

/// Whether a posting date is within the last 14 days: RFC 2822 (RSS
/// `pubDate`) first, then RFC 3339, then a plain `YYYY-MM-DD` date.
pub open spec fn posted_within_two_weeks(date: Seq<char>, now: Clock) -> bool {
    match rfc2822_instant(date) {
        Some((s, n)) => whole_days_since(now, s, n) <= 14,
        None => match rfc3339_instant(date) {
            Some((s, n)) => whole_days_since(now, s, n) <= 14,
            None => match ymd_day(date) {
                Some(d) => now.day - d <= 14,
                None => false,
            },
        },
    }
}

/// Recency check for a lead's posting date (see [`posted_within_two_weeks`]).
pub fn posted_recently(date: &str, now: &Clock) -> (r: bool)
    ensures
        r == posted_within_two_weeks(date@, *now),
{
    match parse_rfc2822(date) {
        Some((s, n)) => days_since(now, s, n) <= 14,
        None => match parse_rfc3339(date) {
            Some((s, n)) => days_since(now, s, n) <= 14,
            None => match parse_ymd(date) {
                Some(d) => (now.day as i64) - (d as i64) <= 14,
                None => false,
            },
        },
    }
}

} // verus!

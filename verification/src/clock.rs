//! Wall-clock readings: std's `SystemTime` since the Unix epoch, formatted
//! by chrono.

use vstd::prelude::*;
use crate::num::digit_value;
use crate::paths::plain_relative;
use crate::text::is_ascii_digit;

verus! {

/// The year as chrono's `%Y` writes it: at least four digits, after a `+`
/// or `-` sign for years outside 0..=9999.
pub open spec fn year_text(y: Seq<char>) -> bool {
    let start: int = if y.len() > 0 && (y[0] == '+' || y[0] == '-') {
        1
    } else {
        0
    };
    &&& y.len() - start >= 4
    &&& forall|i: int| start <= i < y.len() ==> is_ascii_digit(#[trigger] y[i])
}

/// The number that the two digits `a`, `b` write.
pub open spec fn two_digits(a: char, b: char) -> nat {
    digit_value(a) * 10 + digit_value(b)
}

/// `s` reads as chrono's `%Y-%m-%d`: the year, `-`, the month as two digits
/// from 01 to 12, `-`, and the day as two digits from 01 to 31.
pub open spec fn local_date_text(s: Seq<char>) -> bool {
    let n = s.len() as int;
    &&& n >= 10
    &&& year_text(s.take(n - 6))
    &&& s[n - 6] == '-'
    &&& s[n - 3] == '-'
    &&& is_ascii_digit(s[n - 5]) && is_ascii_digit(s[n - 4])
    &&& is_ascii_digit(s[n - 2]) && is_ascii_digit(s[n - 1])
    &&& 1 <= two_digits(s[n - 5], s[n - 4]) <= 12
    &&& 1 <= two_digits(s[n - 2], s[n - 1]) <= 31
}

/// A date text is a plain relative path part: it holds only digits, signs
/// and dashes, so it can name a folder under another.
pub proof fn lemma_local_date_is_plain(s: Seq<char>)
    requires
        local_date_text(s),
    ensures
        plain_relative(s),
{
    let n = s.len() as int;
    let y = s.take(n - 6);
    assert forall|i: int| 0 <= i < n implies #[trigger] s[i] != ':' && s[i] != '/' && s[i] != '\\'
        && s[i] != '?' by {
        if i < n - 6 {
            assert(s[i] == y[i]);
        }
    }
}

/// Calls `SystemTime::now().duration_since(UNIX_EPOCH)`: the time since the
/// Unix epoch as whole seconds and the nanoseconds past them, or none when
/// the clock reads earlier than the epoch. Which time it is depends on the
/// clock and is not stated; std documents that the nanoseconds are under one
/// billion.
#[verifier::external_body]
pub(crate) fn unix_time_now() -> (r: Option<(u64, u32)>)
    ensures
        r matches Some(t) ==> t.1 < 1_000_000_000,
{
    match std::time::SystemTime::now().duration_since(std::time::UNIX_EPOCH) {
        Ok(d) => Some((d.as_secs(), d.subsec_nanos())),
        Err(_) => None,
    }
}

/// The current time since the Unix epoch as a signed count of seconds (as
/// chrono takes it) and nanoseconds: none before the epoch or past the
/// range of `i64`.
pub(crate) fn unix_time_now_signed() -> (r: Option<(i64, u32)>)
    ensures
        r matches Some(t) ==> t.0 >= 0 && t.1 < 1_000_000_000,
{
    match unix_time_now() {
        Some((secs, nanos)) => if secs <= 0x7fff_ffff_ffff_ffffu64 {
            Some((secs as i64, nanos))
        } else {
            None
        },
        None => None,
    }
}

/// Whole seconds since the Unix epoch, 0 when the clock reads earlier.
pub(crate) fn now_unix() -> (r: u64) {
    match unix_time_now() {
        Some((secs, _)) => secs,
        None => 0,
    }
}

/// What `DateTime::<Utc>::from_timestamp(secs, nanos)` followed by
/// `to_rfc3339()` gives.
pub uninterp spec fn rfc3339_of(secs: i64, nanos: u32) -> Option<Seq<char>>;

/// What `DateTime::<Utc>::from_timestamp(secs, nanos)` followed by
/// `to_rfc3339_opts(SecondsFormat::Secs, true)` gives.
pub uninterp spec fn rfc3339_secs_of(secs: i64, nanos: u32) -> Option<Seq<char>>;

/// Calls `chrono::DateTime::<Utc>::from_timestamp(secs, nanos)` and formats
/// the instant with `to_rfc3339()`; none where chrono's range does not hold
/// the instant. A function of its arguments alone, named `rfc3339_of`.
#[verifier::external_body]
pub(crate) fn utc_rfc3339_at(secs: i64, nanos: u32) -> (r: Option<String>)
    ensures
        match r {
            Some(s) => rfc3339_of(secs, nanos) == Some(s@),
            None => rfc3339_of(secs, nanos) is None,
        },
{
    match chrono::DateTime::from_timestamp(secs, nanos) {
        Some(t) => Some(t.to_rfc3339()),
        None => None,
    }
}

/// Calls `chrono::DateTime::<Utc>::from_timestamp(secs, nanos)` and formats
/// the instant with `to_rfc3339_opts(SecondsFormat::Secs, true)` (to the
/// second, `Z` for the zone); none where chrono's range does not hold the
/// instant. A function of its arguments alone, named `rfc3339_secs_of`.
#[verifier::external_body]
pub(crate) fn utc_rfc3339_secs_at(secs: i64, nanos: u32) -> (r: Option<String>)
    ensures
        match r {
            Some(s) => rfc3339_secs_of(secs, nanos) == Some(s@),
            None => rfc3339_secs_of(secs, nanos) is None,
        },
{
    match chrono::DateTime::from_timestamp(secs, nanos) {
        Some(t) => Some(t.to_rfc3339_opts(chrono::SecondsFormat::Secs, true)),
        None => None,
    }
}

/// Calls `chrono::DateTime::<Utc>::from_timestamp(secs, nanos)`, moves the
/// instant to the local time zone (`with_timezone(&Local)`), goes back
/// `days` days with `checked_sub_signed(TimeDelta::days(days))` and formats
/// the local date as `%Y-%m-%d`; none where chrono's range does not hold the
/// instant or the earlier date. The date depends on the machine's time zone
/// and is not stated; chrono's documentation of `%Y`, `%m` and `%d` gives
/// its shape. chrono reads the zone from the machine's time-zone data and
/// expects that data to cover the instant; that data is no argument here.
#[verifier::external_body]
pub(crate) fn local_date_at(secs: i64, nanos: u32, days: u32) -> (r: Option<String>)
    ensures
        r matches Some(d) ==> local_date_text(d@),
{
    let earlier = match chrono::DateTime::from_timestamp(secs, nanos) {
        Some(t) => t.with_timezone(&chrono::Local).checked_sub_signed(chrono::TimeDelta::days(i64::from(days))),
        None => None,
    };
    match earlier {
        Some(d) => Some(d.format("%Y-%m-%d").to_string()),
        None => None,
    }
}

/// The current UTC time as an RFC 3339 timestamp, or none when the clock
/// reads before the epoch or beyond chrono's range. Which time it is depends
/// on the clock and is not stated.
pub(crate) fn now_rfc3339() -> (r: Option<String>)
    ensures
        r matches Some(s) ==> exists|secs: i64, nanos: u32| #[trigger] rfc3339_of(secs, nanos) == Some(s@),
{
    match unix_time_now_signed() {
        Some((secs, nanos)) => utc_rfc3339_at(secs, nanos),
        None => None,
    }
}

/// The current UTC time to the second as an RFC 3339 timestamp (with `Z`),
/// or none when the clock reads before the epoch or beyond chrono's range.
pub(crate) fn now_rfc3339_secs() -> (r: Option<String>)
    ensures
        r matches Some(s) ==> exists|secs: i64, nanos: u32| #[trigger] rfc3339_secs_of(secs, nanos) == Some(s@),
{
    match unix_time_now_signed() {
        Some((secs, nanos)) => utc_rfc3339_secs_at(secs, nanos),
        None => None,
    }
}

/// Today's local date (`%Y-%m-%d`), or none when the clock reads before the
/// epoch or beyond chrono's range.
pub(crate) fn local_date_today() -> (r: Option<String>)
    ensures
        r matches Some(d) ==> local_date_text(d@),
{
    local_date_days_ago(0)
}

/// The local date `days` days ago (`%Y-%m-%d`), or none when the clock
/// reads before the epoch or the date falls outside chrono's range.
pub(crate) fn local_date_days_ago(days: u32) -> (r: Option<String>)
    ensures
        r matches Some(d) ==> local_date_text(d@),
{
    match unix_time_now_signed() {
        Some((secs, nanos)) => local_date_at(secs, nanos, days),
        None => None,
    }
}

} // verus!

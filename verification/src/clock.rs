//! Wall-clock time and calendar text.
//!
//! The current time is read from the system clock and passed through
//! chrono's calendar range; a clock that reads before the Unix epoch or past
//! that range yields no time instead of a panic.
//!
//! `chrono::DateTime` cannot be declared to Verus (its time-zone parameter
//! is bounded by an outside trait), so each chrono call below turns the
//! date-time value into a plain one before it leaves the call.
use crate::history::digits_spec;
use chrono::{DateTime, Local};
use std::time::{Duration, SystemTime, UNIX_EPOCH};
use vstd::prelude::*;

verus! {

#[verifier::external_type_specification]
#[verifier::external_body]
pub struct ExSystemTime(SystemTime);

// ---------------------------------------------------------------------------
// chrono's calendar range
// ---------------------------------------------------------------------------

/// Whether `secs` seconds from the Unix epoch lie in chrono's calendar
/// range, that is, whether `DateTime::from_timestamp(secs, _)` gives a
/// date-time.
///
/// chrono's dates run from January 1 of year -262143 to December 31 of year
/// 262142 (proleptic Gregorian), days -95746129 to 95745399 counted from
/// January 1 of year 1 as day 1; the Unix epoch is day 719163. The first
/// representable second is therefore (-95746129 - 719163) * 86400 and the
/// last (95745399 - 719163) * 86400 + 86399.
pub open spec fn utc_timestamp_representable(secs: int) -> bool {
    -8334601228800 <= secs <= 8210266876799
}

// ---------------------------------------------------------------------------
// The title's calendar text
// ---------------------------------------------------------------------------

/// The proleptic Gregorian (year, month, day) of the day `days` after
/// January 1, 1970.
pub open spec fn civil_from_days(days: int) -> (int, int, int) {
    let z = days + 719468;
    let era = z / 146097;
    let doe = z - era * 146097;
    let yoe = (doe - doe / 1460 + doe / 36524 - doe / 146096) / 365;
    let doy = doe - (365 * yoe + yoe / 4 - yoe / 100);
    let mp = (5 * doy + 2) / 153;
    let day = doy - (153 * mp + 2) / 5 + 1;
    let month = if mp < 10 {
        mp + 3
    } else {
        mp - 9
    };
    let year = yoe + era * 400 + if month <= 2 {
        1int
    } else {
        0int
    };
    (year, month, day)
}

/// The English name of month `m` (1 to 12).
pub open spec fn month_name(m: int) -> Seq<char> {
    if m == 1 {
        "January"@
    } else if m == 2 {
        "February"@
    } else if m == 3 {
        "March"@
    } else if m == 4 {
        "April"@
    } else if m == 5 {
        "May"@
    } else if m == 6 {
        "June"@
    } else if m == 7 {
        "July"@
    } else if m == 8 {
        "August"@
    } else if m == 9 {
        "September"@
    } else if m == 10 {
        "October"@
    } else if m == 11 {
        "November"@
    } else {
        "December"@
    }
}

/// `n` (0 to 99) in two places, the tens place blank when zero.
pub open spec fn space_padded_two(n: int) -> Seq<char> {
    if n < 10 {
        seq![' '] + digits_spec(n as nat)
    } else {
        digits_spec(n as nat)
    }
}

/// `n` (0 to 99) in two digits.
pub open spec fn zero_padded_two(n: int) -> Seq<char> {
    if n < 10 {
        seq!['0'] + digits_spec(n as nat)
    } else {
        digits_spec(n as nat)
    }
}

/// The digits of `n`, padded with zeros to at least four.
pub open spec fn four_digits(n: nat) -> Seq<char> {
    let d = digits_spec(n);
    Seq::new(if d.len() < 4 { (4 - d.len()) as nat } else { 0 }, |i: int| '0') + d
}

/// A year as `%Y` writes it: four digits for years 0 to 9999, and a sign
/// followed by at least four digits for the others.
pub open spec fn year_text(y: int) -> Seq<char> {
    if 0 <= y <= 9999 {
        four_digits(y as nat)
    } else if y < 0 {
        seq!['-'] + four_digits((-y) as nat)
    } else {
        seq!['+'] + four_digits(y as nat)
    }
}

/// The title pattern `%B %e, %Y - %l:%M%p` applied to the civil date-time
/// `local` seconds after 1970-01-01 00:00:00, such as
/// `March 5, 2024 -  3:07PM`.
pub open spec fn calendar_title_at(local: int) -> Seq<char> {
    let days = local / 86400;
    let second_of_day = local % 86400;
    let hour = second_of_day / 3600;
    let minute = (second_of_day % 3600) / 60;
    let (year, month, day) = civil_from_days(days);
    let hour12 = if hour % 12 == 0 {
        12
    } else {
        hour % 12
    };
    month_name(month) + " "@ + space_padded_two(day) + ", "@ + year_text(year) + " - "@
        + space_padded_two(hour12) + ":"@ + zero_padded_two(minute) + if hour < 12 {
        "AM"@
    } else {
        "PM"@
    }
}

/// `text` is the title pattern applied to the Unix time `secs` as seen from
/// some time zone: a local time less than a day away from `secs`.
pub open spec fn calendar_title_shape(text: Seq<char>, secs: int) -> bool {
    exists|local: int|
        secs - 86400 < local < secs + 86400 && text == #[trigger] calendar_title_at(local)
}

/// The pattern that entry titles are written with.
pub open spec fn title_pattern() -> Seq<char> {
    "%B %e, %Y - %l:%M%p"@
}

/// `DateTime::from_timestamp(secs, 0)` shown in the local time zone with
/// `DateTime::format(pattern)`; `None` when `secs` is out of chrono's range.
///
/// Only the title pattern is admitted: chrono turns an invalid pattern into
/// a formatting error, on which `to_string` panics. The text is that
/// pattern applied to the local date-time, which is `secs` shifted by the
/// zone's offset, and a chrono offset is less than a day; which offset
/// applies depends on the machine's time zone and is not described.
#[verifier::external_body]
pub(crate) fn local_calendar_text(secs: i64, pattern: &str) -> (text: Option<String>)
    requires
        pattern@ == title_pattern(),
    ensures
        text is Some <==> utc_timestamp_representable(secs as int),
        text matches Some(t) ==> calendar_title_shape(t@, secs as int),
{
    match DateTime::from_timestamp(secs, 0) {
        Some(utc) => Some(utc.with_timezone(&Local).format(pattern).to_string()),
        None => None,
    }
}

// ---------------------------------------------------------------------------
// The current time
// ---------------------------------------------------------------------------

/// `SystemTime::now`. The reading depends on the clock; nothing is stated.
#[verifier::external_body]
fn system_now() -> SystemTime {
    SystemTime::now()
}

/// `SystemTime::duration_since(UNIX_EPOCH)`: the time elapsed since the
/// Unix epoch, or `None` when `t` lies before it.
#[verifier::external_body]
fn elapsed_since_epoch(t: &SystemTime) -> Option<Duration> {
    t.duration_since(UNIX_EPOCH).ok()
}

/// `Duration::as_secs`: the whole seconds of `d`.
#[verifier::external_body]
fn whole_seconds(d: &Duration) -> u64 {
    d.as_secs()
}

/// `Duration::subsec_nanos`: the fraction of a second of `d`, in
/// nanoseconds, always below one billion.
#[verifier::external_body]
fn subsec_nanos(d: &Duration) -> (nanos: u32)
    ensures
        nanos < 1_000_000_000,
{
    d.subsec_nanos()
}

/// `DateTime::from_timestamp(secs, nanos)` read back with
/// `DateTime::timestamp`: `secs` itself when it lies in chrono's calendar
/// range (the two round-trip), `None` otherwise.
#[verifier::external_body]
fn utc_timestamp(secs: i64, nanos: u32) -> (r: Option<i64>)
    requires
        nanos < 1_000_000_000,
    ensures
        r is Some <==> utc_timestamp_representable(secs as int),
        r matches Some(t) ==> t == secs,
{
    match DateTime::from_timestamp(secs, nanos) {
        Some(dt) => Some(dt.timestamp()),
        None => None,
    }
}

/// The current Unix time in whole seconds, as chrono's `Utc::now` gives it;
/// `None` when the system clock reads before the Unix epoch or past
/// chrono's calendar range.
pub fn current_timestamp() -> (secs: Option<i64>)
    ensures
        secs matches Some(t) ==> utc_timestamp_representable(t as int),
{
    let now = system_now();
    match elapsed_since_epoch(&now) {
        None => None,
        Some(elapsed) => {
            let whole = whole_seconds(&elapsed);
            if whole > 9223372036854775807u64 {
                None
            } else {
                let nanos = subsec_nanos(&elapsed);
                utc_timestamp(whole as i64, nanos)
            }
        },
    }
}

} // verus!

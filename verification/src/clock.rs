//! The fixed-width clock text `HH:MM:SS.mmm` of a duration.
//!
//! A duration is rendered as the time of day that lies so long after
//! midnight: whole days are dropped, and the fraction of a second is cut to
//! milliseconds.

use vstd::prelude::*;

verus! {

/// Nanoseconds in one second.
pub const NANOS_PER_SEC: u64 = 1_000_000_000;

/// Seconds in one day.
pub const SECS_PER_DAY: u64 = 86_400;

/// The character that writes the decimal digit `d`.
pub open spec fn digit_char(d: int) -> char {
    if d == 0 {
        '0'
    } else if d == 1 {
        '1'
    } else if d == 2 {
        '2'
    } else if d == 3 {
        '3'
    } else if d == 4 {
        '4'
    } else if d == 5 {
        '5'
    } else if d == 6 {
        '6'
    } else if d == 7 {
        '7'
    } else if d == 8 {
        '8'
    } else {
        '9'
    }
}

/// The last two decimal digits of `n`, with a leading zero where needed.
pub open spec fn two_digits(n: int) -> Seq<char> {
    seq![digit_char(n / 10 % 10), digit_char(n % 10)]
}

/// The last three decimal digits of `n`, with leading zeros where needed.
pub open spec fn three_digits(n: int) -> Seq<char> {
    seq![digit_char(n / 100 % 10), digit_char(n / 10 % 10), digit_char(n % 10)]
}

/// The clock text of `secs` seconds and `subsec_nanos` nanoseconds: hours,
/// minutes and seconds of the day, two digits each, and milliseconds, three
/// digits.
pub open spec fn clock_string(secs: int, subsec_nanos: int) -> Seq<char> {
    let day_secs = secs % 86_400;
    two_digits(day_secs / 3600) + seq![':'] + two_digits(day_secs / 60 % 60) + seq![':']
        + two_digits(day_secs % 60) + seq!['.'] + three_digits(subsec_nanos / 1_000_000)
}

/// The clock text of a count of nanoseconds.
pub open spec fn clock_string_of_nanos(nanos: int) -> Seq<char> {
    clock_string(nanos / 1_000_000_000, nanos % 1_000_000_000)
}

/// Formats a time of day with chrono.
///
/// Trusted: the body builds the UTC date-time that lies `day_secs` seconds and
/// `subsec_nanos` nanoseconds after the epoch with
/// `chrono::NaiveDateTime::from_timestamp_opt` and `chrono::DateTime::from_utc`,
/// and formats it with `chrono::DateTime::format` under the pattern
/// `%H:%M:%S.%3f`. The contract claims what chrono documents for that pattern:
/// zero-padded hour, minute and second, a dot, and the milliseconds in three
/// digits. Within the first day after the epoch the constructor returns
/// `Some`, so the `unwrap` does not panic.
#[verifier::external_body]
#[allow(deprecated)]
fn chrono_time_of_day(day_secs: i64, subsec_nanos: u32) -> (text: String)
    requires
        0 <= day_secs < 86_400,
        subsec_nanos < 1_000_000_000,
    ensures
        text@ == clock_string(day_secs as int, subsec_nanos as int),
{
    let naive = chrono::NaiveDateTime::from_timestamp_opt(day_secs, subsec_nanos).unwrap();
    let moment = chrono::DateTime::<chrono::Utc>::from_utc(naive, chrono::Utc);
    moment.format("%H:%M:%S.%3f").to_string()
}

/// Renders `secs` seconds and `subsec_nanos` nanoseconds as `HH:MM:SS.mmm`.
pub fn format_clock(secs: u64, subsec_nanos: u32) -> (text: String)
    requires
        subsec_nanos < 1_000_000_000,
    ensures
        text@ == clock_string(secs as int, subsec_nanos as int),
{
    let day_secs: u64 = secs % SECS_PER_DAY;
    chrono_time_of_day(day_secs as i64, subsec_nanos)
}

/// Renders a count of nanoseconds as `HH:MM:SS.mmm`.
pub fn format_nanos(nanos: u64) -> (text: String)
    ensures
        text@ == clock_string_of_nanos(nanos as int),
{
    let secs: u64 = nanos / NANOS_PER_SEC;
    let rest: u64 = nanos % NANOS_PER_SEC;
    format_clock(secs, rest as u32)
}

} // verus!

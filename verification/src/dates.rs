//! Calendar days. A day is counted from the day before 0001-01-01 in the
//! proleptic Gregorian calendar; an instant is a number of nanoseconds since
//! the Unix epoch.
use chrono::{Datelike, TimeZone, Timelike};
use vstd::prelude::*;

verus! {

/// First day that a calendar date can name.
pub const MIN_DAY: i32 = -95_746_129;

/// Last day that a calendar date can name.
pub const MAX_DAY: i32 = 95_745_399;

/// Day of the Unix epoch.
pub const EPOCH_DAY: i32 = 719_163;

/// Nanoseconds in a day.
pub const DAY_NANOS: i128 = 86_400_000_000_000;

/// Days that a calendar date can name.
pub open spec fn valid_day(day: i32) -> bool {
    MIN_DAY <= day <= MAX_DAY
}

/// Instants whose day is valid in every time zone.
pub open spec fn valid_instant(instant: i128) -> bool {
    (MIN_DAY + 1 - EPOCH_DAY) * DAY_NANOS <= instant < (MAX_DAY - EPOCH_DAY) * DAY_NANOS
}

/// What `NaiveDate` prints for a day.
pub uninterp spec fn day_text(day: int) -> Seq<char>;

/// Calls `NaiveDate::from_num_days_from_ce_opt` and prints the date with its
/// `Display`. The text is a function of the day alone; its form, year, month and
/// day joined by hyphens, is not stated.
#[verifier::external_body]
pub(crate) fn print_day(day: i32) -> (text: String)
    requires
        valid_day(day),
    ensures
        text@ == day_text(day as int),
{
    chrono::NaiveDate::from_num_days_from_ce_opt(day).unwrap().to_string()
}

/// Seconds since the Unix epoch at the start of a day.
pub open spec fn day_start_seconds(day: int) -> int {
    (day - EPOCH_DAY) * 86_400
}

/// Calls `DateTime::from_timestamp`, `DateTime::with_timezone` with the machine's
/// time zone and `Datelike::num_days_from_ce`. Which day it is rests on that zone: it is the
/// day in UTC, or one of those beside it, since an offset is less than a day.
#[verifier::external_body]
fn local_day_of(seconds: i64, nanos: u32) -> (day: i32)
    requires
        day_start_seconds(MIN_DAY + 1) <= seconds < day_start_seconds(MAX_DAY as int),
        nanos < 1_000_000_000,
    ensures
        valid_day(day),
        -1 <= day - (seconds as int / 86_400 + EPOCH_DAY) <= 1,
{
    let utc = chrono::DateTime::from_timestamp(seconds, nanos).unwrap();
    utc.with_timezone(&chrono::Local).date_naive().num_days_from_ce()
}

/// Whole seconds of an instant since the Unix epoch, and the nanoseconds beyond them.
fn split_instant(instant: i128) -> (parts: (i64, u32))
    requires
        valid_instant(instant),
    ensures
        parts.0 == instant as int / 1_000_000_000,
        parts.1 == instant as int % 1_000_000_000,
{
    let first: i128 = (MIN_DAY as i128 + 1 - EPOCH_DAY as i128) * DAY_NANOS;
    let shifted: u128 = (instant - first) as u128;
    let nanos: u32 = (shifted % 1_000_000_000) as u32;
    let seconds: i64 = (shifted / 1_000_000_000) as i64 + (MIN_DAY as i64 + 1 - EPOCH_DAY as i64) * 86_400;
    (seconds, nanos)
}

/// The calendar day of an instant in UTC.
pub open spec fn utc_day_of(instant: i128) -> int {
    instant as int / DAY_NANOS as int + EPOCH_DAY
}

/// Whole seconds of an instant since the Unix epoch.
pub open spec fn seconds_of(instant: i128) -> i64 {
    (instant as int / 1_000_000_000) as i64
}

/// Nanoseconds of an instant beyond its whole seconds.
pub open spec fn nanos_of(instant: i128) -> u32 {
    (instant as int % 1_000_000_000) as u32
}

/// Whether a day is what the machine's time zone gave when it was asked for the day of an
/// instant.
pub closed spec fn is_local_day(instant: i128, day: i32) -> bool {
    call_ensures(local_day_of, (seconds_of(instant), nanos_of(instant)), day)
}

/// Whether a day and a text are what the machine's time zone gave when it was asked for the
/// day and the clock of an instant.
pub closed spec fn is_local_time(instant: i128, day: i32, text: Seq<char>) -> bool {
    exists|time: (i32, String)|
        time.0 == day && time.1@ == text && #[trigger] call_ensures(
            local_time_of,
            (seconds_of(instant), nanos_of(instant)),
            time,
        )
}

/// Whether an instant, or none, is what the machine's time zone gave when it was asked for
/// the instant of a time of a day.
pub closed spec fn is_local_instant(day: i32, seconds: u32, instant: Option<i64>) -> bool {
    call_ensures(local_instant, (day, seconds), instant)
}

/// A day counts as the local one of an instant exactly where the lookup gave it for the whole
/// seconds and the nanoseconds of that very instant; likewise a day with its clock, and the
/// instant of a time.
proof fn law_local_times_are_looked_up(instant: i128, day: i32, seconds: u32)
    ensures
        forall|given: i32| #[trigger]
            is_local_day(instant, given) ==> call_ensures(
                local_day_of,
                ((instant as int / 1_000_000_000) as i64, (instant as int % 1_000_000_000) as u32),
                given,
            ),
        forall|given: i32, text: Seq<char>| #[trigger]
            is_local_time(instant, given, text) ==> exists|time: (i32, String)|
                time.0 == given && time.1@ == text && #[trigger] call_ensures(
                    local_time_of,
                    ((instant as int / 1_000_000_000) as i64, (instant as int % 1_000_000_000) as u32),
                    time,
                ),
        forall|given: Option<i64>| #[trigger]
            is_local_instant(day, seconds, given) ==> call_ensures(local_instant, (day, seconds), given),
{
}

/// Asks for something with two arguments.
fn ask<A, B, R, F: Fn(A, B) -> R>(lookup: F, first: A, second: B) -> (given: R)
    requires
        call_requires(lookup, (first, second)),
    ensures
        call_ensures(lookup, (first, second), given),
{
    lookup(first, second)
}

/// The calendar day of an instant in the machine's time zone: the day in UTC, or one of those
/// beside it.
pub fn local_day(instant: i128) -> (day: i32)
    requires
        valid_instant(instant),
    ensures
        is_local_day(instant, day),
        valid_day(day),
        -1 <= day - utc_day_of(instant) <= 1,
{
    let (seconds, nanos): (i64, u32) = split_instant(instant);
    assert(seconds as int / 86_400 == instant as int / DAY_NANOS as int);
    ask(local_day_of, seconds, nanos)
}

/// The calendar day of an instant in UTC.
pub fn utc_day(instant: i128) -> (day: i32)
    requires
        valid_instant(instant),
    ensures
        day == utc_day_of(instant),
        valid_day(day),
{
    let (seconds, _nanos): (i64, u32) = split_instant(instant);
    let shifted: u64 = (seconds - (MIN_DAY as i64 + 1 - EPOCH_DAY as i64) * 86_400) as u64;
    (shifted / 86_400) as i32 + (MIN_DAY + 1)
}

/// What `NaiveTime::parse_from_str` reads as hours and minutes, in seconds since midnight.
pub uninterp spec fn clock_seconds(text: Seq<char>) -> Option<u32>;

/// Calls `NaiveTime::parse_from_str` with the format `%H:%M`. What it accepts is a function
/// of the text alone and is not stated; a time that it reads lies within a day.
#[verifier::external_body]
pub(crate) fn parse_clock(text: &str) -> (seconds: Option<u32>)
    ensures
        seconds == clock_seconds(text@),
        seconds is Some ==> seconds->0 < 86_400,
{
    let time = chrono::NaiveTime::parse_from_str(text, "%H:%M").ok()?;
    Some(time.num_seconds_from_midnight())
}

/// Whether an instant, in seconds since the Unix epoch, can be the given time of a day:
/// clocks differ from UTC by less than a day.
pub open spec fn can_be(instant: i64, day: i32, seconds: u32) -> bool {
    -86_400 < instant - (day_start_seconds(day as int) + seconds) < 86_400
}

/// Calls `TimeZone::from_local_datetime` with the machine's time zone, and
/// `LocalResult::earliest`. Which instant it is rests on that zone, and a time that the
/// zone leaves out has none; it lies within a day of that time in UTC.
#[verifier::external_body]
fn local_instant(day: i32, seconds: u32) -> (instant: Option<i64>)
    requires
        valid_day(day),
        seconds < 86_400,
    ensures
        instant is Some ==> can_be(instant->0, day, seconds),
{
    let date = chrono::NaiveDate::from_num_days_from_ce_opt(day).unwrap();
    let time = chrono::NaiveTime::from_num_seconds_from_midnight_opt(seconds, 0).unwrap();
    let found = chrono::Local.from_local_datetime(&date.and_time(time)).earliest()?;
    Some(found.timestamp())
}

/// Whether a character is a digit.
pub open spec fn is_digit(c: char) -> bool {
    '0' <= c <= '9'
}

/// Whether a text names hours and minutes of a day.
pub open spec fn is_clock(text: Seq<char>) -> bool {
    &&& text.len() == 5
    &&& is_digit(text[0]) && is_digit(text[1])
    &&& text[0] <= '1' || (text[0] == '2' && text[1] <= '3')
    &&& text[2] == ':'
    &&& is_digit(text[3]) && is_digit(text[4])
    &&& text[3] <= '5'
}

/// The number that a digit stands for.
pub open spec fn digit_value(c: char) -> int {
    c as int - '0' as int
}

/// Seconds from midnight to the hours and minutes that a text names.
pub open spec fn clock_value(text: Seq<char>) -> int {
    (digit_value(text[0]) * 10 + digit_value(text[1])) * 3_600 + (digit_value(text[3]) * 10 + digit_value(text[4])) * 60
}

/// Whether an instant, in seconds since the Unix epoch, can be shown as a day and its hours
/// and minutes: clocks differ from UTC by less than a day, and the seconds of the minute are
/// not shown.
pub open spec fn can_show(instant: int, day: i32, text: Seq<char>) -> bool {
    &&& is_clock(text)
    &&& -86_400 < instant - (day_start_seconds(day as int) + clock_value(text)) < 86_460
}

/// Calls `DateTime::from_timestamp`, `DateTime::with_timezone` with the machine's time zone,
/// and on what that gives `Datelike::num_days_from_ce` and `DateTime::format` with `%H:%M`.
/// Which day and time it is rests on that zone. The text is two digits up to 23, a colon and
/// two digits up to 59, and day and text together lie within a day and a minute of the
/// instant, since an offset is less than a day.
#[verifier::external_body]
fn local_time_of(seconds: i64, nanos: u32) -> (time: (i32, String))
    requires
        day_start_seconds(MIN_DAY + 1) <= seconds < day_start_seconds(MAX_DAY as int),
        nanos < 1_000_000_000,
    ensures
        valid_day(time.0),
        can_show(seconds as int, time.0, time.1@),
{
    let utc = chrono::DateTime::from_timestamp(seconds, nanos).unwrap();
    let local = utc.with_timezone(&chrono::Local);
    (local.date_naive().num_days_from_ce(), local.format("%H:%M").to_string())
}

/// The day of an instant in the machine's time zone, and its hours and minutes there.
pub fn local_time(instant: i128) -> (time: (i32, String))
    requires
        valid_instant(instant),
    ensures
        is_local_time(instant, time.0, time.1@),
        valid_day(time.0),
        can_show(instant as int / 1_000_000_000, time.0, time.1@),
        -1 <= time.0 - utc_day_of(instant) <= 1,
{
    let (seconds, nanos): (i64, u32) = split_instant(instant);
    assert(seconds as int / 86_400 == instant as int / DAY_NANOS as int);
    let time = ask(local_time_of, seconds, nanos);
    assert(call_ensures(local_time_of, (seconds_of(instant), nanos_of(instant)), time));
    time
}

/// The instant of a time of a day in the machine's time zone, in seconds since the Unix
/// epoch: whatever the zone gives, which is none for a time that it leaves out.
pub(crate) fn instant_at(day: i32, seconds: u32) -> (instant: Option<i64>)
    requires
        valid_day(day),
        seconds < 86_400,
    ensures
        is_local_instant(day, seconds, instant),
        instant is Some ==> can_be(instant->0, day, seconds),
{
    ask(local_instant, day, seconds)
}

} // verus!

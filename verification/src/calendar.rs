//! Local wall-clock time as the core reads it: a day of the proleptic
//! Gregorian calendar, counted from January 1 of the year 1 as day 1, and
//! the seconds since that day's midnight. Arithmetic on readings is done
//! here on the numbers; what only a calendar knows (the weekday, the day of
//! the month, the written form of a moment) is asked of `chrono`.

use chrono::Datelike;
use vstd::prelude::*;

verus! {

/// The number of seconds in a day.
pub const SECONDS_PER_DAY: u32 = 86_400;

/// The weekday of a day, as `chrono` gives it: 0 for Monday up to 6 for
/// Sunday, and nothing for a day outside the calendar's range.
pub uninterp spec fn weekday_number(day: int) -> Option<int>;

/// The day of the month of a day, as `chrono` gives it, counted from 1, and
/// nothing for a day outside the calendar's range.
pub uninterp spec fn month_day_number(day: int) -> Option<int>;

/// The text that `chrono` writes for the moment `second` seconds after the
/// midnight of `day` under the `strftime` pattern `pattern`, and nothing
/// where the day, the second or the pattern is not valid.
pub uninterp spec fn formatted_time(day: int, second: int, pattern: Seq<char>) -> Option<
    Seq<char>,
>;

/// Calls `chrono::NaiveDate::from_num_days_from_ce_opt`, then
/// `Datelike::weekday` and `Weekday::num_days_from_monday` on the date.
/// The result is a function of the day alone and, where there is one, lies
/// below 7.
#[verifier::external_body]
pub(crate) fn weekday_of(day: i32) -> (weekday: Option<u32>)
    ensures
        weekday_number(day as int) == match weekday {
            Some(w) => Some(w as int),
            None => None::<int>,
        },
        weekday is Some ==> weekday->0 < 7,
{
    match chrono::NaiveDate::from_num_days_from_ce_opt(day) {
        Some(date) => Some(date.weekday().num_days_from_monday()),
        None => None,
    }
}

/// Calls `chrono::NaiveDate::from_num_days_from_ce_opt`, then
/// `Datelike::day` on the date. The result is a function of the day alone.
#[verifier::external_body]
pub(crate) fn day_of_month(day: i32) -> (month_day: Option<u32>)
    ensures
        month_day_number(day as int) == match month_day {
            Some(d) => Some(d as int),
            None => None::<int>,
        },
{
    match chrono::NaiveDate::from_num_days_from_ce_opt(day) {
        Some(date) => Some(date.day()),
        None => None,
    }
}

/// Builds the moment with `chrono::NaiveDate::from_num_days_from_ce_opt`
/// and `chrono::NaiveTime::from_num_seconds_from_midnight_opt`, then writes
/// it with `NaiveDateTime::format` and `DelayedFormat::write_to`. The text
/// is a function of the day, the second and the pattern alone; there is
/// none where `chrono` refuses one of the three.
#[verifier::external_body]
pub(crate) fn format_time(day: i32, second: u32, pattern: &str) -> (text: Option<String>)
    ensures
        formatted_time(day as int, second as int, pattern@) == match text {
            Some(t) => Some(t@),
            None => None::<Seq<char>>,
        },
{
    let date = chrono::NaiveDate::from_num_days_from_ce_opt(day)?;
    let time = chrono::NaiveTime::from_num_seconds_from_midnight_opt(second, 0)?;
    let mut text = String::new();
    match date.and_time(time).format(pattern).write_to(&mut text) {
        Ok(()) => Some(text),
        Err(_) => None,
    }
}

/// A reading of the local wall clock.
#[derive(Debug, Clone, Copy, PartialEq, Eq, Structural)]
pub struct LocalTime {
    /// The day, counted from January 1 of the year 1 as day 1.
    pub days_from_ce: i32,
    /// The seconds since the day's midnight.
    pub seconds_from_midnight: u32,
}

impl LocalTime {
    /// The seconds lie within the day.
    pub open spec fn well_formed(&self) -> bool {
        self.seconds_from_midnight < SECONDS_PER_DAY
    }

    /// The reading as a count of seconds on the local time line.
    pub open spec fn instant(&self) -> int {
        self.days_from_ce * 86_400 + self.seconds_from_midnight
    }

    /// The reading `seconds` seconds before this one on the local time
    /// line.
    pub open spec fn earlier_by(&self, seconds: int) -> LocalTime {
        LocalTime {
            days_from_ce: ((self.instant() - seconds) / 86_400) as i32,
            seconds_from_midnight: ((self.instant() - seconds) % 86_400) as u32,
        }
    }

    /// The reading of `seconds_from_midnight` seconds into the day
    /// `days_from_ce`, where the seconds lie within a day.
    pub fn new(days_from_ce: i32, seconds_from_midnight: u32) -> (reading: Option<LocalTime>)
        ensures
            seconds_from_midnight < SECONDS_PER_DAY ==> reading == Some(
                LocalTime { days_from_ce, seconds_from_midnight },
            ),
            seconds_from_midnight >= SECONDS_PER_DAY ==> reading is None,
    {
        if seconds_from_midnight < SECONDS_PER_DAY {
            Some(LocalTime { days_from_ce, seconds_from_midnight })
        } else {
            None
        }
    }

    /// The reading `seconds` seconds before this one, where this one is
    /// well formed and the day of the earlier one can still be counted.
    pub fn seconds_before(&self, seconds: u32) -> (earlier: Option<LocalTime>)
        ensures
            earlier is Some <==> self.well_formed() && self.instant() - seconds >= i32::MIN
                * 86_400,
            earlier is Some ==> earlier->0 == self.earlier_by(seconds as int),
            earlier is Some ==> earlier->0.well_formed() && earlier->0.instant() == self.instant()
                - seconds,
    {
        if self.seconds_from_midnight >= SECONDS_PER_DAY {
            return None;
        }
        if seconds <= self.seconds_from_midnight {
            return Some(
                LocalTime {
                    days_from_ce: self.days_from_ce,
                    seconds_from_midnight: self.seconds_from_midnight - seconds,
                },
            );
        }
        let deficit: u64 = (seconds - self.seconds_from_midnight) as u64;
        let days: u64 = (deficit - 1) / 86_400 + 1;
        let rest: u64 = days * 86_400 - deficit;
        let day: i64 = self.days_from_ce as i64 - days as i64;
        if day < i32::MIN as i64 {
            None
        } else {
            Some(LocalTime { days_from_ce: day as i32, seconds_from_midnight: rest as u32 })
        }
    }

    /// The minute of the day, counted from midnight.
    pub fn minute_of_day(&self) -> (minute: u32)
        ensures
            minute == self.seconds_from_midnight / 60,
    {
        self.seconds_from_midnight / 60
    }
}

/// The day `days` days before `day`, where it can still be counted.
pub fn days_before(day: i32, days: u32) -> (earlier: Option<i32>)
    ensures
        day - days >= i32::MIN ==> earlier == Some((day - days) as i32),
        day - days < i32::MIN ==> earlier is None,
{
    let target: i64 = day as i64 - days as i64;
    if target < i32::MIN as i64 {
        None
    } else {
        Some(target as i32)
    }
}

/// The pattern of a timestamp: date and time of day, to the second.
pub open spec fn timestamp_pattern() -> Seq<char> {
    "%Y-%m-%d %H:%M:%S"@
}

/// The pattern of a date.
pub open spec fn date_pattern() -> Seq<char> {
    "%Y-%m-%d"@
}

/// The timestamp of a reading, where the calendar knows the reading.
pub open spec fn timestamp_of(reading: LocalTime) -> Option<Seq<char>> {
    formatted_time(
        reading.days_from_ce as int,
        reading.seconds_from_midnight as int,
        timestamp_pattern(),
    )
}

/// The written date of a day, where the calendar knows the day.
pub open spec fn date_of(day: int) -> Option<Seq<char>> {
    formatted_time(day, 0, date_pattern())
}

/// An optional text holds the characters `expected`, or both are absent.
pub open spec fn holds_text(text: Option<String>, expected: Option<Seq<char>>) -> bool {
    match text {
        Some(t) => expected == Some(t@),
        None => expected is None,
    }
}

/// Writes a reading as a timestamp.
pub fn timestamp_text(reading: &LocalTime) -> (text: Option<String>)
    ensures
        holds_text(text, timestamp_of(*reading)),
{
    format_time(reading.days_from_ce, reading.seconds_from_midnight, "%Y-%m-%d %H:%M:%S")
}

/// Writes a day as a date.
pub fn date_text(day: i32) -> (text: Option<String>)
    ensures
        holds_text(text, date_of(day as int)),
{
    format_time(day, 0, "%Y-%m-%d")
}

} // verus!

use vstd::prelude::*;

use chrono::{Datelike, Timelike};

verus! {

/// The first day that chrono can represent (January 1 of year -262143),
/// counted as in `Date`.
pub const MIN_DAY: i32 = -95746129;

/// The last day that chrono can represent (December 31 of year 262142),
/// counted as in `Date`.
pub const MAX_DAY: i32 = 95745399;

/// A day of the proleptic Gregorian calendar, numbered so that January 1 of
/// year 1 is day 1 (chrono's `num_days_from_ce`). Later days have larger
/// numbers, so days compare as their numbers do.
#[derive(Debug, Clone, Copy, PartialEq, Eq, Structural)]
pub struct Date {
    pub days: i32,
}

impl Date {
    /// The day lies in chrono's range.
    pub open spec fn wf(self) -> bool {
        MIN_DAY <= self.days <= MAX_DAY
    }
}

/// A moment: a day, the seconds since its midnight and the nanoseconds
/// within that second. As in chrono, a nanosecond count of one second or
/// more marks a leap second, which only the last second of a minute can be.
#[derive(Debug, Clone, Copy, PartialEq, Eq, Structural)]
pub struct DateTime {
    pub date: Date,
    pub secs: u32,
    pub nanos: u32,
}

impl DateTime {
    /// The moment is one that chrono can represent.
    pub open spec fn wf(self) -> bool {
        &&& self.date.wf()
        &&& self.secs < 86400
        &&& self.nanos < 2_000_000_000
        &&& self.nanos >= 1_000_000_000 ==> self.secs % 60 == 59
    }

    /// The moment lies within a leap second.
    pub open spec fn in_leap_second(self) -> bool {
        self.nanos >= 1_000_000_000
    }
}

/// The day on which `weeks` weeks after `t` falls. Going backwards from the
/// very end of a day's leap second (23:59:60) lands one day later than the
/// plain count, since chrono first moves out of the leap second to the next
/// midnight.
pub open spec fn day_weeks_after(t: DateTime, weeks: int) -> int {
    t.date.days + 7 * weeks + if t.in_leap_second() && weeks < 0 && t.secs == 86399 {
        1int
    } else {
        0int
    }
}

/// `weeks` weeks after `t` is still a moment that chrono can represent.
pub open spec fn weeks_after_in_range(t: DateTime, weeks: int) -> bool {
    MIN_DAY <= day_weeks_after(t, weeks) <= MAX_DAY
}

/// The day of January 1, 1970, the start of Unix time, counted as in `Date`.
pub const UNIX_EPOCH_DAY: i32 = 719163;

/// The moment `secs` seconds and `nanos` nanoseconds after the start of
/// Unix time: the day, the second within it and the nanoseconds.
pub open spec fn moment_of_timestamp(secs: int, nanos: int) -> (int, int, int) {
    (secs / 86400 + UNIX_EPOCH_DAY, secs % 86400, nanos)
}

/// The standard library's `SystemTime::now().duration_since(UNIX_EPOCH)`: the
/// time of the system clock as whole seconds and nanoseconds since the start
/// of Unix time, or none when the clock reads a time before it. Claimed, as
/// the documentation of `Duration::subsec_nanos` states: the nanoseconds are
/// fewer than one second. Nothing is said of which time it is.
#[verifier::external_body]
fn system_clock() -> (r: Option<(u64, u32)>)
    ensures
        r matches Some(t) ==> t.1 < 1_000_000_000,
{
    match std::time::SystemTime::now().duration_since(std::time::UNIX_EPOCH) {
        Ok(d) => Some((d.as_secs(), d.subsec_nanos())),
        Err(_) => None,
    }
}

/// chrono's `DateTime::from_timestamp(secs, nanos)` followed by
/// `naive_utc()`. Claimed, from chrono's source: the moment is the day
/// `secs / 86400` (rounded down) after the start of Unix time, at the
/// remaining seconds of that day and the given nanoseconds, and it exists
/// exactly when that day is in chrono's range.
#[verifier::external_body]
fn from_timestamp(secs: i64, nanos: u32) -> (r: Option<DateTime>)
    requires
        nanos < 1_000_000_000,
    ensures
        ({
            let (day, sec, nano) = moment_of_timestamp(secs as int, nanos as int);
            r == if MIN_DAY <= day <= MAX_DAY {
                Some(DateTime { date: Date { days: day as i32 }, secs: sec as u32, nanos: nano as u32 })
            } else {
                None
            }
        }),
{
    match chrono::DateTime::from_timestamp(secs, nanos) {
        Some(t) => Some(DateTime {
            date: Date { days: t.naive_utc().date().num_days_from_ce() },
            secs: t.naive_utc().time().num_seconds_from_midnight(),
            nanos: t.naive_utc().time().nanosecond(),
        }),
        None => None,
    }
}

/// `t` is a moment the clock can give: one chrono can represent, never
/// within a leap second, and not before 1970.
pub open spec fn clock_reading(t: DateTime) -> bool {
    t.wf() && !t.in_leap_second() && t.date.days >= UNIX_EPOCH_DAY
}

/// The moment of a clock reading of `secs` seconds and `nanos` nanoseconds
/// since the start of Unix time, if chrono can represent it.
pub open spec fn reading_moment(secs: int, nanos: int) -> Option<DateTime> {
    let (day, sec, nano) = moment_of_timestamp(secs, nanos);
    if secs <= 9_223_372_036_854_775_807 && MIN_DAY <= day <= MAX_DAY {
        Some(DateTime { date: Date { days: day as i32 }, secs: sec as u32, nanos: nano as u32 })
    } else {
        None
    }
}

/// The moment of a clock reading of `secs` seconds and `nanos` nanoseconds
/// since the start of Unix time; none when chrono cannot represent it.
pub fn moment_of_reading(secs: u64, nanos: u32) -> (r: Option<DateTime>)
    requires
        nanos < 1_000_000_000,
    ensures
        r == reading_moment(secs as int, nanos as int),
        r matches Some(t) ==> clock_reading(t),
{
    if secs > 9_223_372_036_854_775_807u64 {
        None
    } else {
        from_timestamp(secs as i64, nanos)
    }
}

/// The current UTC date and time, as chrono's `Utc::now().naive_utc()`
/// gives it; none when the system clock reads a time before 1970 or one
/// beyond chrono's calendar, where chrono would panic. A moment read is one
/// chrono can represent, never within a leap second, and not before 1970.
pub fn now_utc() -> (r: Option<DateTime>)
    ensures
        r matches Some(t) ==> clock_reading(t),
{
    match system_clock() {
        Some((secs, nanos)) => moment_of_reading(secs, nanos),
        None => None,
    }
}

/// chrono's `NaiveDateTime::checked_add_signed` of `TimeDelta::try_weeks(weeks)`,
/// of which the date is kept. Claimed, from chrono's source: the sum keeps
/// the time of day and moves the day by seven days a week (one day more
/// when stepping back from 23:59:60), and it is defined exactly when that
/// day is in chrono's range; a number of weeks too large for a `TimeDelta`
/// would put the day far outside that range.
#[verifier::external_body]
pub(crate) fn date_weeks_after(t: DateTime, weeks: i64) -> (r: Option<Date>)
    requires
        t.wf(),
    ensures
        r == if weeks_after_in_range(t, weeks as int) {
            Some(Date { days: day_weeks_after(t, weeks as int) as i32 })
        } else {
            None
        },
{
    let date = chrono::NaiveDate::from_num_days_from_ce_opt(t.date.days).unwrap();
    let time = chrono::NaiveTime::from_num_seconds_from_midnight_opt(t.secs, t.nanos).unwrap();
    let delta = chrono::TimeDelta::try_weeks(weeks)?;
    let later = date.and_time(time).checked_add_signed(delta)?;
    Some(Date { days: later.date().num_days_from_ce() })
}

} // verus!

//! Calendar dates as Julian day numbers, with the weekday and month rules
//! that the roster needs.

use vstd::prelude::*;

verus! {

/// Julian day number of -9999-01-01, the first date that `time` represents.
pub const MIN_DAY: i32 = -1930999;

/// Julian day number of 9999-12-31, the last date that `time` represents.
pub const MAX_DAY: i32 = 5373484;

/// Weekday index of Saturday, counting from Monday as zero.
pub const SATURDAY: u8 = 5;

/// Weekday index of Sunday, counting from Monday as zero.
pub const SUNDAY: u8 = 6;

/// Weekday of a Julian day number, counting from Monday as zero.
pub open spec fn weekday_of(day: int) -> int {
    day % 7
}

/// Saturday and Sunday are rest days; the other weekdays are working days.
pub open spec fn is_rest_weekday(weekday: int) -> bool {
    weekday == SATURDAY || weekday == SUNDAY
}

pub open spec fn rest_day(day: int) -> bool {
    is_rest_weekday(weekday_of(day))
}

pub open spec fn in_date_range(day: int) -> bool {
    MIN_DAY <= day <= MAX_DAY
}

pub open spec fn is_leap_year(year: int) -> bool {
    year % 4 == 0 && (year % 100 != 0 || year % 400 == 0)
}

/// Number of days of a month (1 to 12) in the proleptic Gregorian calendar.
pub open spec fn month_length(year: int, month: int) -> int {
    if month == 2 {
        if is_leap_year(year) { 29 } else { 28 }
    } else if month == 4 || month == 6 || month == 9 || month == 11 {
        30
    } else {
        31
    }
}

pub open spec fn valid_date(year: int, month: int, day: int) -> bool {
    -9999 <= year <= 9999 && 1 <= month <= 12 && 1 <= day <= month_length(year, month)
}

/// The Julian day number of a date of the proleptic Gregorian calendar:
/// years counted from March, so that the leap day ends a year, and every
/// division rounding down.
pub open spec fn julian_day_of(year: int, month: int, day: int) -> int {
    let a = (14 - month) / 12;
    let y = year + 4800 - a;
    let m = month + 12 * a - 3;
    day + (153 * m + 2) / 5 + 365 * y + y / 4 - y / 100 + y / 400 - 32045
}

/// Relies on `time::Month::try_from`, `time::Date::from_calendar_date` and
/// `time::Date::to_julian_day`: a date exists exactly when its year is in
/// -9999..=9999, its month in 1..=12 and its day within the month's length;
/// its Julian day number then lies between the first and the last date.
#[verifier::external_body]
pub(crate) fn calendar_day_number(year: i32, month: u8, day: u8) -> (r: Option<i32>)
    ensures
        r.is_some() <==> valid_date(year as int, month as int, day as int),
        r matches Some(n) ==> n == julian_day_of(year as int, month as int, day as int)
            && in_date_range(n as int),
{
    let month = time::Month::try_from(month).ok()?;
    time::Date::from_calendar_date(year, month, day).ok().map(|d| d.to_julian_day())
}

/// Relies on `time::Date::from_julian_day`, which accepts every day number
/// between the first and the last date, and on `time::Date::weekday` with
/// `time::Weekday::number_days_from_monday`: the weekday is the Julian day
/// number modulo seven, Monday being zero.
#[verifier::external_body]
pub(crate) fn weekday_number(day: i32) -> (r: u8)
    requires
        in_date_range(day as int),
    ensures
        r as int == weekday_of(day as int),
{
    match time::Date::from_julian_day(day) {
        Ok(date) => date.weekday().number_days_from_monday(),
        Err(_) => 0,
    }
}

/// Relies on `time::Month::try_from` and `time::Month::length`: the number of
/// days of a month in a year of the proleptic Gregorian calendar; `time`
/// asserts the year range in debug builds.
#[verifier::external_body]
pub(crate) fn days_in_month(year: i32, month: u8) -> (r: u8)
    requires
        -9999 <= year <= 9999,
        1 <= month <= 12,
    ensures
        r as int == month_length(year as int, month as int),
{
    match time::Month::try_from(month) {
        Ok(m) => m.length(year),
        Err(_) => 0,
    }
}

/// A calendar date, held as its Julian day number.
#[derive(Clone, Copy, Debug, PartialEq, Eq, Structural)]
pub struct CalendarDate {
    pub day_number: i32,
}

impl CalendarDate {
    pub open spec fn wf(self) -> bool {
        in_date_range(self.day_number as int)
    }

    pub open spec fn day(self) -> int {
        self.day_number as int
    }

    /// The date with the given Julian day number.
    pub fn from_day_number(day_number: i32) -> (r: CalendarDate)
        ensures
            r.day_number == day_number,
    {
        CalendarDate { day_number }
    }

    /// The date of a year, month (1 to 12) and day of month, if it exists.
    pub fn from_calendar_date(year: i32, month: u8, day: u8) -> (r: Option<CalendarDate>)
        ensures
            r.is_some() <==> valid_date(year as int, month as int, day as int),
            r matches Some(d) ==> d.wf() && d.day() == julian_day_of(
                year as int,
                month as int,
                day as int,
            ),
    {
        match calendar_day_number(year, month, day) {
            Some(n) => Some(CalendarDate { day_number: n }),
            None => None,
        }
    }

    /// Weekday index, Monday being zero.
    pub fn weekday(&self) -> (r: u8)
        requires
            self.wf(),
        ensures
            r as int == weekday_of(self.day()),
            r < 7,
    {
        weekday_number(self.day_number)
    }
}

/// Rest-day tests on a calendar date.
pub trait DateExt {
    spec fn day_index(&self) -> int;

    /// Whether the date is a Saturday or a Sunday.
    fn is_rest_day(&self) -> (r: bool)
        requires
            in_date_range(self.day_index()),
        ensures
            r == rest_day(self.day_index()),
    ;

    /// Whether the following day is a rest day.
    fn has_upcoming_rest_day(&self) -> (r: bool)
        requires
            in_date_range(self.day_index()),
            self.day_index() < MAX_DAY,
        ensures
            r == rest_day(self.day_index() + 1),
    ;

    /// Whether the following day is a working day.
    fn has_upcoming_working_day(&self) -> (r: bool)
        requires
            in_date_range(self.day_index()),
            self.day_index() < MAX_DAY,
        ensures
            r == !rest_day(self.day_index() + 1),
    ;
}

impl DateExt for CalendarDate {
    open spec fn day_index(&self) -> int {
        self.day_number as int
    }

    fn is_rest_day(&self) -> (r: bool) {
        let w = self.weekday();
        w == SATURDAY || w == SUNDAY
    }

    fn has_upcoming_rest_day(&self) -> (r: bool) {
        let next = CalendarDate { day_number: self.day_number + 1 };
        next.is_rest_day()
    }

    fn has_upcoming_working_day(&self) -> (r: bool) {
        !self.has_upcoming_rest_day()
    }
}

} // verus!

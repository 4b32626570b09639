//! The period a roster is asked for: a day, a month and a year.

use vstd::prelude::*;
use crate::calendar::valid_date;

verus! {

/// The calendar date, as (year, month, day), that a `YYYY-MM-DD` text denotes.
pub uninterp spec fn parsed_date(s: Seq<char>) -> Option<(int, int, int)>;

/// Relies on `time::format_description::parse` and `time::Date::parse` with
/// the description `[year]-[month]-[day]`: the date read from the text, if
/// it reads as one; a date that `time` returns is a valid calendar date.
#[verifier::external_body]
fn parse_calendar_date(s: &str) -> (r: Option<(i32, u8, u8)>)
    ensures
        r matches Some((y, m, d)) ==> parsed_date(s@) == Some((y as int, m as int, d as int))
            && valid_date(y as int, m as int, d as int),
        r is None ==> parsed_date(s@) is None,
{
    let format = time::format_description::parse("[year]-[month]-[day]").ok()?;
    let date = time::Date::parse(s, &format).ok()?;
    Some((date.year(), date.month() as u8, date.day()))
}

/// Mathematical view of a period: (day, month, year).
pub struct PeriodModel {
    pub day: int,
    pub month: int,
    pub year: int,
}

/// A day of a month of a year; only the month and year decide the roster.
#[derive(Clone, Copy, Debug, PartialEq, Eq, Structural)]
pub struct Period {
    day: u8,
    month: u8,
    year: i32,
}

impl View for Period {
    type V = PeriodModel;

    closed spec fn view(&self) -> PeriodModel {
        PeriodModel { day: self.day as int, month: self.month as int, year: self.year as int }
    }
}

/// A text that does not denote a calendar date as `YYYY-MM-DD`.
#[derive(Clone, Copy, Debug, PartialEq, Eq, Structural)]
pub struct InvalidPeriod {}

impl Period {
    /// The period of a day, a month (1 to 12) and a year; not checked.
    pub fn new(day: u8, month: u8, year: i32) -> (r: Period)
        ensures
            r@ == (PeriodModel { day: day as int, month: month as int, year: year as int }),
    {
        Period { day, month, year }
    }

    pub fn day(&self) -> (r: u8)
        ensures
            r == self@.day,
    {
        self.day
    }

    pub fn month(&self) -> (r: u8)
        ensures
            r == self@.month,
    {
        self.month
    }

    pub fn year(&self) -> (r: i32)
        ensures
            r == self@.year,
    {
        self.year
    }

    /// Reads a period written `YYYY-MM-DD`.
    pub fn parse(s: &str) -> (r: Result<Period, InvalidPeriod>)
        ensures
            r matches Ok(p) ==> parsed_date(s@) == Some((p@.year, p@.month, p@.day))
                && valid_date(p@.year, p@.month, p@.day),
            r is Err <==> parsed_date(s@) is None,
    {
        match parse_calendar_date(s) {
            Some((year, month, day)) => Ok(Period { day, month, year }),
            None => Err(InvalidPeriod {  }),
        }
    }
}

impl std::str::FromStr for Period {
    type Err = InvalidPeriod;

    fn from_str(s: &str) -> Result<Period, InvalidPeriod> {
        Period::parse(s)
    }
}

} // verus!

//! Duty windows: a start and an end timestamp, minute precision.

use vstd::prelude::*;
use crate::calendar::{in_date_range, weekday_of, CalendarDate, MAX_DAY, SATURDAY, SUNDAY};

verus! {

pub const MINUTES_PER_DAY: u16 = 1440;

/// 19:00, when an evening shift starts.
pub const EVENING: u16 = 1140;

/// 09:00, when an overnight shift ends.
pub const MORNING: u16 = 540;

/// 23:59, the last minute of a day.
pub const LAST_MINUTE: u16 = 1439;

/// A date and a time of day, counted in minutes after midnight.
#[derive(Clone, Copy, Debug, PartialEq, Eq, Structural)]
pub struct DateTime {
    pub date: CalendarDate,
    pub minute: u16,
}

/// Mathematical view of a duty window: day numbers and minutes after midnight.
pub struct WindowModel {
    pub start_day: int,
    pub start_minute: int,
    pub end_day: int,
    pub end_minute: int,
}

impl WindowModel {
    pub open spec fn elapsed_minutes(self) -> int {
        (self.end_day - self.start_day) * 1440 + self.end_minute - self.start_minute
    }

    /// Whole hours covered, a started hour counting as a full one.
    pub open spec fn duration_hours(self) -> int {
        (self.elapsed_minutes() + 59) / 60
    }

    pub open spec fn is_saturday(self) -> bool {
        weekday_of(self.start_day) == SATURDAY
    }

    pub open spec fn is_sunday(self) -> bool {
        weekday_of(self.start_day) == SUNDAY
    }

    pub open spec fn wf(self) -> bool {
        &&& in_date_range(self.start_day)
        &&& in_date_range(self.end_day)
        &&& self.start_day <= self.end_day <= self.start_day + 1
        &&& 0 <= self.start_minute < 1440
        &&& 0 <= self.end_minute < 1440
        &&& self.elapsed_minutes() > 0
    }
}

/// Overnight window of a working day followed by a working day: 19:00 to 09:00.
pub open spec fn standard_window(day: int) -> WindowModel {
    WindowModel { start_day: day, start_minute: 1140, end_day: day + 1, end_minute: 540 }
}

/// Window of a whole rest day: 00:00 to 23:59.
pub open spec fn full_window(day: int) -> WindowModel {
    WindowModel { start_day: day, start_minute: 0, end_day: day, end_minute: 1439 }
}

/// Evening window of a working day followed by a rest day: 19:00 to 23:59.
pub open spec fn short_window(day: int) -> WindowModel {
    WindowModel { start_day: day, start_minute: 1140, end_day: day, end_minute: 1439 }
}

/// Morning window of a working day that follows a rest day: 00:00 to 09:00.
pub open spec fn handoff_window(day: int) -> WindowModel {
    WindowModel { start_day: day, start_minute: 0, end_day: day, end_minute: 540 }
}

/// A duty window; its end lies after its start, at most one day later.
#[derive(Clone, Copy, Debug, PartialEq, Eq, Structural)]
pub struct OnDutyDate {
    start_time: DateTime,
    end_time: DateTime,
}

impl View for OnDutyDate {
    type V = WindowModel;

    closed spec fn view(&self) -> WindowModel {
        WindowModel {
            start_day: self.start_time.date.day_number as int,
            start_minute: self.start_time.minute as int,
            end_day: self.end_time.date.day_number as int,
            end_minute: self.end_time.minute as int,
        }
    }
}

impl OnDutyDate {
    pub open spec fn wf(self) -> bool {
        self@.wf()
    }

    /// The overnight window that starts on `base_date`.
    pub fn create(base_date: CalendarDate) -> (r: OnDutyDate)
        requires
            base_date.wf(),
            base_date.day() < MAX_DAY,
        ensures
            r@ == standard_window(base_date.day()),
            r.wf(),
            r@.duration_hours() == 14,
    {
        let next = CalendarDate { day_number: base_date.day_number + 1 };
        OnDutyDate {
            start_time: DateTime { date: base_date, minute: EVENING },
            end_time: DateTime { date: next, minute: MORNING },
        }
    }

    /// The window that covers the whole of `base_date`.
    pub fn create_full(base_date: CalendarDate) -> (r: OnDutyDate)
        requires
            base_date.wf(),
        ensures
            r@ == full_window(base_date.day()),
            r.wf(),
            r@.duration_hours() == 24,
    {
        OnDutyDate {
            start_time: DateTime { date: base_date, minute: 0 },
            end_time: DateTime { date: base_date, minute: LAST_MINUTE },
        }
    }

    /// The evening window of `base_date`, cut at midnight.
    pub fn create_short(base_date: CalendarDate) -> (r: OnDutyDate)
        requires
            base_date.wf(),
        ensures
            r@ == short_window(base_date.day()),
            r.wf(),
            r@.duration_hours() == 5,
    {
        OnDutyDate {
            start_time: DateTime { date: base_date, minute: EVENING },
            end_time: DateTime { date: base_date, minute: LAST_MINUTE },
        }
    }

    /// The hand-off window from midnight to 09:00 of `base_date`.
    pub fn create_sadness(base_date: CalendarDate) -> (r: OnDutyDate)
        requires
            base_date.wf(),
        ensures
            r@ == handoff_window(base_date.day()),
            r.wf(),
            r@.duration_hours() == 9,
    {
        OnDutyDate {
            start_time: DateTime { date: base_date, minute: 0 },
            end_time: DateTime { date: base_date, minute: MORNING },
        }
    }

    pub fn is_saturday(&self) -> (r: bool)
        requires
            self.wf(),
        ensures
            r == self@.is_saturday(),
    {
        self.start_time.date.weekday() == SATURDAY
    }

    pub fn is_sunday(&self) -> (r: bool)
        requires
            self.wf(),
        ensures
            r == self@.is_sunday(),
    {
        self.start_time.date.weekday() == SUNDAY
    }

    pub fn start_time(&self) -> (r: DateTime)
        ensures
            r.date.day() == self@.start_day,
            r.minute == self@.start_minute,
    {
        self.start_time
    }

    pub fn end_time(&self) -> (r: DateTime)
        ensures
            r.date.day() == self@.end_day,
            r.minute == self@.end_minute,
    {
        self.end_time
    }

    /// Hours between start and end, rounded up.
    pub fn duration_in_hours(&self) -> (r: u64)
        requires
            self.wf(),
        ensures
            r == self@.duration_hours(),
    {
        let days: u64 = (self.end_time.date.day_number - self.start_time.date.day_number) as u64;
        let minutes: u64 = days * 1440 + self.end_time.minute as u64
            - self.start_time.minute as u64;
        (minutes + 59) / 60
    }
}

} // verus!

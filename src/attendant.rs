//! Per-attendant bookkeeping: hours served, days on duty, weekend shifts.

use vstd::prelude::*;
use crate::calendar::CalendarDate;
use crate::window::{OnDutyDate, WindowModel};

verus! {

/// Mathematical view of an attendant's ledger entry.
pub struct AttendantModel {
    pub name: Seq<char>,
    pub dates: Seq<int>,
    pub total: int,
    pub saturday: bool,
    pub sunday: bool,
}

/// A fresh ledger entry: no hours, no days, no weekend shifts.
pub open spec fn fresh_attendant(name: Seq<char>) -> AttendantModel {
    AttendantModel { name, dates: seq![], total: 0, saturday: false, sunday: false }
}

/// The ledger entry after winning window `w`.
pub open spec fn recorded(a: AttendantModel, w: WindowModel) -> AttendantModel {
    AttendantModel {
        name: a.name,
        dates: a.dates.push(w.start_day),
        total: a.total + w.duration_hours(),
        saturday: a.saturday || w.is_saturday(),
        sunday: a.sunday || w.is_sunday(),
    }
}

/// A participant of the roster and what they have served so far.
#[derive(Clone, Debug)]
pub struct DutyAttendant {
    pub name: String,
    on_duty_dates: Vec<CalendarDate>,
    total_hours: u64,
    has_saturday: bool,
    has_sunday: bool,
}

impl View for DutyAttendant {
    type V = AttendantModel;

    closed spec fn view(&self) -> AttendantModel {
        AttendantModel {
            name: self.name@,
            dates: self.on_duty_dates@.map_values(|d: CalendarDate| d.day_number as int),
            total: self.total_hours as int,
            saturday: self.has_saturday,
            sunday: self.has_sunday,
        }
    }
}

impl DutyAttendant {
    pub fn new(name: &str) -> (r: DutyAttendant)
        ensures
            r@ == fresh_attendant(name@),
    {
        let r = DutyAttendant {
            name: name.to_owned(),
            on_duty_dates: Vec::new(),
            total_hours: 0,
            has_saturday: false,
            has_sunday: false,
        };
        assert(r@.dates =~= seq![]);
        r
    }

    pub fn name(&self) -> (r: &str)
        ensures
            r@ == self@.name,
    {
        self.name.as_str()
    }

    pub fn has_saturday(&self) -> (r: bool)
        ensures
            r == self@.saturday,
    {
        self.has_saturday
    }

    pub fn has_sunday(&self) -> (r: bool)
        ensures
            r == self@.sunday,
    {
        self.has_sunday
    }

    pub fn total_hours(&self) -> (r: u64)
        ensures
            r == self@.total,
    {
        self.total_hours
    }

    /// Whether a window starting on `date` was won by this attendant.
    pub fn is_on_duty(&self, date: CalendarDate) -> (r: bool)
        ensures
            r == self@.dates.contains(date.day()),
    {
        let ghost dates = self@.dates;
        let mut i: usize = 0;
        while i < self.on_duty_dates.len()
            invariant
                i <= self.on_duty_dates@.len(),
                dates == self@.dates,
                dates.len() == self.on_duty_dates@.len(),
                forall|j: int| 0 <= j < i ==> dates[j] != date.day(),
            decreases self.on_duty_dates@.len() - i,
        {
            if self.on_duty_dates[i].day_number == date.day_number {
                assert(dates[i as int] == date.day());
                return true;
            }
            i = i + 1;
        }
        false
    }

    /// Records the win of window `date`.
    pub fn update(&mut self, date: &OnDutyDate)
        requires
            date.wf(),
            old(self)@.total + date@.duration_hours() <= u64::MAX,
        ensures
            final(self)@ == recorded(old(self)@, date@),
    {
        self.on_duty_dates.push(date.start_time().date);
        self.total_hours = self.total_hours + date.duration_in_hours();
        if !self.has_saturday {
            self.has_saturday = date.is_saturday();
        }
        if !self.has_sunday {
            self.has_sunday = date.is_sunday();
        }
        assert(self@.dates =~= old(self)@.dates.push(date@.start_day));
    }
}

} // verus!

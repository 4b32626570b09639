//! The month's duty windows, and the roster that assigns each of them in turn.

use vstd::prelude::*;
use crate::attendant::{fresh_attendant, AttendantModel, DutyAttendant};
use crate::calendar::{
    julian_day_of, month_length, rest_day, valid_date, CalendarDate, DateExt, MAX_DAY,
};
use crate::period::Period;
use crate::resolver::{
    lemma_best_of, after_pick, has_room, index_of, ledger, pick, CompositeOnDutyResolver,
    OnDutyDateResolver, OnDutyEntry,
};
use crate::writer::entries_valid;
use crate::window::{
    full_window, handoff_window, short_window, standard_window, OnDutyDate, WindowModel,
};

verus! {

/// The windows that day `d` contributes, in order.
pub open spec fn day_windows(d: int) -> Seq<WindowModel> {
    if rest_day(d) {
        if !rest_day(d + 1) {
            seq![full_window(d), handoff_window(d + 1)]
        } else {
            seq![full_window(d)]
        }
    } else if rest_day(d + 1) {
        seq![short_window(d)]
    } else {
        seq![standard_window(d)]
    }
}

/// The windows of the `n` days that start at day number `first`.
pub open spec fn windows_from(first: int, n: nat) -> Seq<WindowModel>
    decreases n,
{
    if n == 0 {
        seq![]
    } else {
        windows_from(first, (n - 1) as nat) + day_windows(first + n - 1)
    }
}

/// Whether day `d` is a rest day followed by a working day, so that it adds a hand-off window.
pub open spec fn adds_handoff(d: int) -> bool {
    rest_day(d) && !rest_day(d + 1)
}

/// The number of days among the `n` from `first` that add a hand-off window.
pub open spec fn handoff_count(first: int, n: nat) -> nat
    decreases n,
{
    if n == 0 {
        0
    } else {
        handoff_count(first, (n - 1) as nat) + if adds_handoff(first + n - 1) {
            1nat
        } else {
            0nat
        }
    }
}

/// The windows of `n` days number one per day plus one per rest day that a
/// working day follows.
pub proof fn lemma_window_count(first: int, n: nat)
    ensures
        windows_from(first, n).len() == n + handoff_count(first, n),
        handoff_count(first, n) <= n,
    decreases n,
{
    if n > 0 {
        lemma_window_count(first, (n - 1) as nat);
    }
}

pub open spec fn first_day_of_month(year: int, month: int) -> int {
    julian_day_of(year, month, 1)
}

/// The windows of a whole month, from its first day to its last.
pub open spec fn month_windows(year: int, month: int) -> Seq<WindowModel> {
    windows_from(first_day_of_month(year, month), month_length(year, month) as nat)
}

/// A roster exists for a valid date whose month is followed by a representable day.
pub open spec fn roster_possible(year: int, month: int, day: int) -> bool {
    valid_date(year, month, day) && first_day_of_month(year, month) + month_length(year, month)
        <= MAX_DAY
}

pub open spec fn window_views(v: Seq<OnDutyDate>) -> Seq<WindowModel> {
    v.map_values(|w: OnDutyDate| w@)
}

/// The ledger and the picks after resolving windows `ws` in order from ledger `s0`.
pub open spec fn run(s0: Seq<AttendantModel>, ws: Seq<WindowModel>) -> (
    Seq<AttendantModel>,
    Seq<Option<int>>,
)
    decreases ws.len(),
{
    if ws.len() == 0 {
        (s0, seq![])
    } else {
        let prev = run(s0, ws.drop_last());
        let p = pick(prev.0, ws.last());
        (after_pick(prev.0, ws.last(), p), prev.1.push(p))
    }
}

/// The ledger at the start of a run: one fresh entry per participant.
pub open spec fn initial_ledger(participants: Seq<&str>) -> Seq<AttendantModel> {
    participants.map_values(|n: &str| fresh_attendant(n@))
}

/// The windows of the month of (`year`, `month`), whatever the day given.
pub fn get_on_duty_dates(day: u8, month: u8, year: i32) -> (r: Option<Vec<OnDutyDate>>)
    ensures
        r.is_some() <==> roster_possible(year as int, month as int, day as int),
        r matches Some(v) ==> window_views(v@) == month_windows(year as int, month as int)
            && v@.len() <= 62 && forall|k: int| 0 <= k < v@.len() ==> v@[k].wf(),
{
    if CalendarDate::from_calendar_date(year, month, day).is_none() {
        return None;
    }
    let first = match CalendarDate::from_calendar_date(year, month, 1) {
        Some(d) => d,
        None => return None,
    };
    let len = crate::calendar::days_in_month(year, month);
    if first.day_number > MAX_DAY - len as i32 {
        return None;
    }
    let mut dates: Vec<OnDutyDate> = Vec::with_capacity(31);
    let mut k: u8 = 0;
    while k < len
        invariant
            k <= len,
            first.wf(),
            first.day() + len <= MAX_DAY,
            len == month_length(year as int, month as int),
            first.day() == first_day_of_month(year as int, month as int),
            window_views(dates@) == windows_from(first.day(), k as nat),
            forall|j: int| 0 <= j < dates@.len() ==> dates@[j].wf(),
        decreases len - k,
    {
        let ghost before = dates@;
        let base_date = CalendarDate::from_day_number(first.day_number + k as i32);
        if base_date.is_rest_day() {
            dates.push(OnDutyDate::create_full(base_date));
            if base_date.has_upcoming_working_day() {
                let next = CalendarDate::from_day_number(base_date.day_number + 1);
                dates.push(OnDutyDate::create_sadness(next));
            }
        } else if base_date.has_upcoming_rest_day() {
            dates.push(OnDutyDate::create_short(base_date));
        } else {
            dates.push(OnDutyDate::create(base_date));
        }
        assert(window_views(dates@) =~= window_views(before) + day_windows(base_date.day()));
        k = k + 1;
    }
    proof {
        lemma_window_count(first.day(), len as nat);
    }
    Some(dates)
}

/// The assignments of a month and the attendants' ledgers at its end.
pub struct Roster {
    pub attendants: Vec<DutyAttendant>,
    pub entries: Vec<OnDutyEntry>,
}

/// Builds rosters.
pub struct OnDutyDaysFactory {
    resolver: CompositeOnDutyResolver,
}

/// A window lasts at most two days.
proof fn lemma_duration_bound(w: WindowModel)
    requires
        w.wf(),
    ensures
        0 < w.duration_hours() <= 48,
{
    assert(w.elapsed_minutes() <= 2879) by (nonlinear_arith)
        requires
            w.start_day <= w.end_day <= w.start_day + 1,
            0 <= w.start_minute,
            w.end_minute < 1440,
            w.elapsed_minutes() == (w.end_day - w.start_day) * 1440 + w.end_minute
                - w.start_minute,
    ;
}

impl OnDutyDaysFactory {
    pub fn new() -> (r: OnDutyDaysFactory) {
        OnDutyDaysFactory { resolver: CompositeOnDutyResolver::new() }
    }

    /// One attendant per participant, then each window of the period's month
    /// resolved in order; nothing when the period names no date.
    pub fn build_on_duty_days(&self, participants: &[&str], period: Period) -> (r: Option<Roster>)
        ensures
            r.is_some() <==> roster_possible(period@.year, period@.month, period@.day),
            r matches Some(roster) ==> {
                let ws = month_windows(period@.year, period@.month);
                let outcome = run(initial_ledger(participants@), ws);
                &&& roster.entries@.len() == ws.len()
                &&& forall|k: int|
                    0 <= k < ws.len() ==> roster.entries@[k].1@ == ws[k] && index_of(
                        roster.entries@[k].0,
                    ) == outcome.1[k]
                &&& ledger(roster.attendants@) == outcome.0
                &&& roster.attendants@.len() == participants@.len()
                &&& entries_valid(roster.entries@, roster.attendants@)
            },
    {
        let dates = match get_on_duty_dates(period.day(), period.month(), period.year()) {
            Some(d) => d,
            None => return None,
        };
        let ghost ws = window_views(dates@);
        let ghost s0 = initial_ledger(participants@);
        let mut attendants: Vec<DutyAttendant> = Vec::new();
        let mut i: usize = 0;
        while i < participants.len()
            invariant
                i <= participants@.len(),
                ledger(attendants@) == s0.take(i as int),
                s0 == initial_ledger(participants@),
            decreases participants@.len() - i,
        {
            let a = DutyAttendant::new(participants[i]);
            assert(s0[i as int] == a@);
            let ghost before = attendants@;
            attendants.push(a);
            assert(ledger(attendants@) =~= ledger(before).push(a@));
            assert(s0.take(i + 1) =~= s0.take(i as int).push(s0[i as int]));
            i = i + 1;
        }
        assert(s0.take(participants@.len() as int) =~= s0);
        assert(ws.take(0) =~= seq![]);
        let mut entries: Vec<OnDutyEntry> = Vec::new();
        let mut k: usize = 0;
        while k < dates.len()
            invariant
                k <= dates@.len(),
                dates@.len() <= 62,
                ws == window_views(dates@),
                forall|j: int| 0 <= j < dates@.len() ==> dates@[j].wf(),
                ledger(attendants@) == run(s0, ws.take(k as int)).0,
                entries@.len() == k,
                forall|j: int|
                    #![trigger entries@[j]]
                    0 <= j < k ==> entries@[j].1@ == ws[j] && index_of(entries@[j].0) == run(
                        s0,
                        ws.take(k as int),
                    ).1[j],
                run(s0, ws.take(k as int)).1.len() == k,
                attendants@.len() == participants@.len(),
                s0.len() == participants@.len(),
                forall|j: int|
                    #![trigger entries@[j]]
                    0 <= j < k ==> entries@[j].1.wf() && (entries@[j].0 matches Some(i) ==> i
                        < attendants@.len()),
                forall|j: int|
                    0 <= j < attendants@.len() ==> ledger(attendants@)[j].total <= 48 * k,
            decreases dates@.len() - k,
        {
            let date = dates[k];
            proof {
                lemma_duration_bound(date@);
                assert(ws.take(k + 1).drop_last() =~= ws.take(k as int));
                assert(ws.take(k + 1).last() == date@);
                assert(has_room(ledger(attendants@), date@.duration_hours())) by (nonlinear_arith)
                    requires
                        forall|j: int|
                            0 <= j < attendants@.len() ==> ledger(attendants@)[j].total <= 48
                                * k,
                        k <= 62,
                        date@.duration_hours() <= 48,
                        ledger(attendants@).len() == attendants@.len(),
                ;
            }
            let ghost prev = run(s0, ws.take(k as int));
            let ghost old_entries = entries@;
            let entry = self.resolver.resolve(date, &mut attendants);
            entries.push(entry);
            proof {
                let next = run(s0, ws.take(k + 1));
                assert(next.1 == prev.1.push(pick(prev.0, date@)));
                assert(next.0 == after_pick(prev.0, date@, pick(prev.0, date@)));
                lemma_best_of(prev.0, date@, prev.0.len());
                assert forall|j: int| 0 <= j < attendants@.len() implies ledger(attendants@)[j].total
                    <= 48 * (k + 1) by {
                    if let Some(b) = pick(prev.0, date@) {
                        if j == b {
                            assert(ledger(attendants@)[j].total == prev.0[j].total
                                + date@.duration_hours());
                        } else {
                            assert(ledger(attendants@)[j] == prev.0[j]);
                        }
                    }
                }
                assert forall|j: int| 0 <= j < k + 1 implies entries@[j].1@ == ws[j] && index_of(
                    entries@[j].0,
                ) == next.1[j] by {
                    if j < k {
                        assert(entries@[j] == old_entries[j]);
                        assert(next.1[j] == prev.1[j]);
                    } else {
                        assert(entries@[j] == entry);
                        assert(ws[j] == date@);
                        assert(next.1[j] == pick(prev.0, date@));
                    }
                }
            }
            k = k + 1;
        }
        assert(ws.take(dates@.len() as int) =~= ws);
        assert(entries_valid(entries@, attendants@));
        Some(Roster { attendants, entries })
    }
}

} // verus!

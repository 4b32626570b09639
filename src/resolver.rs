//! Picks the attendant of a duty window: among those eligible for it, the
//! one with the fewest hours, the earliest in input order on a tie.

use vstd::prelude::*;
use crate::attendant::{recorded, AttendantModel, DutyAttendant};
use crate::calendar::CalendarDate;
use crate::window::{OnDutyDate, WindowModel};

verus! {

/// A window and the index of the attendant who won it, if anyone was eligible.
pub type OnDutyEntry = (Option<usize>, OnDutyDate);

pub open spec fn ledger(v: Seq<DutyAttendant>) -> Seq<AttendantModel> {
    v.map_values(|a: DutyAttendant| a@)
}

pub open spec fn index_of(o: Option<usize>) -> Option<int> {
    match o {
        Some(i) => Some(i as int),
        None => None,
    }
}

/// Every attendant of the ledger has had a Saturday and a Sunday window.
pub open spec fn all_had_both(s: Seq<AttendantModel>) -> bool {
    forall|j: int| 0 <= j < s.len() ==> #[trigger] s[j].saturday && s[j].sunday
}

/// Whether attendant `a` of ledger `s` may take window `w`: not on duty the
/// day before, and on a Saturday (Sunday) not yet given a Saturday (Sunday)
/// window, until every attendant has had both weekend windows.
pub open spec fn eligible(s: Seq<AttendantModel>, a: AttendantModel, w: WindowModel) -> bool {
    &&& !a.dates.contains(w.start_day - 1)
    &&& (w.is_saturday() ==> all_had_both(s) || !a.saturday)
    &&& (w.is_sunday() ==> all_had_both(s) || !a.sunday)
}

/// The pick among the first `n` attendants: the eligible one with the
/// fewest hours, the earliest on a tie.
pub open spec fn best_of(s: Seq<AttendantModel>, w: WindowModel, n: nat) -> Option<int>
    decreases n,
{
    if n == 0 {
        None
    } else {
        let prev = best_of(s, w, (n - 1) as nat);
        let i = n - 1;
        if eligible(s, s[i], w) && (prev matches Some(b) ==> s[i].total < s[b].total) {
            Some(i)
        } else {
            prev
        }
    }
}

pub open spec fn pick(s: Seq<AttendantModel>, w: WindowModel) -> Option<int> {
    best_of(s, w, s.len())
}

/// The ledger once window `w` went to `p`.
pub open spec fn after_pick(s: Seq<AttendantModel>, w: WindowModel, p: Option<int>) -> Seq<
    AttendantModel,
> {
    match p {
        Some(i) => s.update(i, recorded(s[i], w)),
        None => s,
    }
}

/// Every attendant can still take `hours` more without overflow.
pub open spec fn has_room(s: Seq<AttendantModel>, hours: int) -> bool {
    forall|i: int| 0 <= i < s.len() ==> s[i].total + hours <= u64::MAX
}

/// What the pick among the first `n` attendants is: eligible, and with no
/// more hours than any eligible one, strictly fewer than any earlier one.
pub proof fn lemma_best_of(s: Seq<AttendantModel>, w: WindowModel, n: nat)
    requires
        n <= s.len(),
    ensures
        best_of(s, w, n) is None <==> forall|j: int| 0 <= j < n ==> !eligible(s, s[j], w),
        best_of(s, w, n) matches Some(b) ==> {
            &&& 0 <= b < n
            &&& eligible(s, s[b], w)
            &&& forall|j: int| 0 <= j < n && eligible(s, s[j], w) ==> s[b].total <= s[j].total
            &&& forall|j: int| 0 <= j < b && eligible(s, s[j], w) ==> s[b].total < s[j].total
        },
    decreases n,
{
    if n > 0 {
        lemma_best_of(s, w, (n - 1) as nat);
    }
}

/// Which of the three rules a window falls under.
#[derive(Clone, Copy, Debug, PartialEq, Eq, Structural)]
pub enum WindowCategory {
    Saturday,
    Sunday,
    Weekday,
}

pub fn category(date: &OnDutyDate) -> (r: WindowCategory)
    requires
        date.wf(),
    ensures
        r == WindowCategory::Saturday <==> date@.is_saturday(),
        r == WindowCategory::Sunday <==> date@.is_sunday(),
        r == WindowCategory::Weekday <==> !date@.is_saturday() && !date@.is_sunday(),
{
    if date.is_saturday() {
        WindowCategory::Saturday
    } else if date.is_sunday() {
        WindowCategory::Sunday
    } else {
        WindowCategory::Weekday
    }
}

/// Whether `attendant` won a window that starts the day before `duty_date` starts.
pub fn is_on_duty_in_previous_day(duty_date: OnDutyDate, attendant: &DutyAttendant) -> (r: bool)
    requires
        duty_date.wf(),
    ensures
        r == attendant@.dates.contains(duty_date@.start_day - 1),
{
    let start = duty_date.start_time().date;
    let previous_day = CalendarDate::from_day_number(start.day_number - 1);
    attendant.is_on_duty(previous_day)
}

fn is_eligible(
    category: WindowCategory,
    all_both: bool,
    date: OnDutyDate,
    attendant: &DutyAttendant,
    s: Ghost<Seq<AttendantModel>>,
) -> (r: bool)
    requires
        all_both == all_had_both(s@),
        date.wf(),
        category == WindowCategory::Saturday <==> date@.is_saturday(),
        category == WindowCategory::Sunday <==> date@.is_sunday(),
    ensures
        r == eligible(s@, attendant@, date@),
{
    if is_on_duty_in_previous_day(date, attendant) {
        return false;
    }
    match category {
        WindowCategory::Saturday => all_both || !attendant.has_saturday(),
        WindowCategory::Sunday => all_both || !attendant.has_sunday(),
        WindowCategory::Weekday => true,
    }
}

/// Whether every attendant has had a Saturday and a Sunday window.
fn all_had_both_weekend_days(attendants: &Vec<DutyAttendant>) -> (r: bool)
    ensures
        r == all_had_both(ledger(attendants@)),
{
    let ghost s = ledger(attendants@);
    let mut i: usize = 0;
    while i < attendants.len()
        invariant
            i <= attendants@.len(),
            s == ledger(attendants@),
            forall|j: int| 0 <= j < i ==> #[trigger] s[j].saturday && s[j].sunday,
        decreases attendants@.len() - i,
    {
        assert(s[i as int] == attendants@[i as int]@);
        if !attendants[i].has_saturday() || !attendants[i].has_sunday() {
            return false;
        }
        i = i + 1;
    }
    true
}

/// Gives the attendant with the fewest hours among those eligible for `date`
/// the window, and records it in their ledger; gives it to no one when
/// nobody is eligible.
fn resolve_window(category: WindowCategory, date: OnDutyDate, attendants: &mut Vec<DutyAttendant>) -> (r: OnDutyEntry)
    requires
        date.wf(),
        category == WindowCategory::Saturday <==> date@.is_saturday(),
        category == WindowCategory::Sunday <==> date@.is_sunday(),
        has_room(ledger(old(attendants)@), date@.duration_hours()),
    ensures
        r.1 == date,
        index_of(r.0) == pick(ledger(old(attendants)@), date@),
        ledger(final(attendants)@) == after_pick(ledger(old(attendants)@), date@, index_of(r.0)),
{
    let ghost s = ledger(attendants@);
    let all_both = all_had_both_weekend_days(attendants);
    let mut best: Option<usize> = None;
    let mut i: usize = 0;
    while i < attendants.len()
        invariant
            i <= attendants@.len(),
            s == ledger(attendants@),
            date.wf(),
            category == WindowCategory::Saturday <==> date@.is_saturday(),
            category == WindowCategory::Sunday <==> date@.is_sunday(),
            index_of(best) == best_of(s, date@, i as nat),
            best matches Some(b) ==> b < i,
            all_both == all_had_both(s),
        decreases attendants@.len() - i,
    {
        let a = &attendants[i];
        if is_eligible(category, all_both, date, a, Ghost(s)) {
            let better = match best {
                Some(b) => a.total_hours() < attendants[b].total_hours(),
                None => true,
            };
            if better {
                best = Some(i);
            }
        }
        i = i + 1;
    }
    match best {
        Some(b) => {
            let ghost before = attendants@;
            let mut winner = attendants.remove(b);
            winner.update(&date);
            attendants.insert(b, winner);
            assert(attendants@ =~= before.update(b as int, winner));
            assert(ledger(attendants@) =~= after_pick(s, date@, index_of(best)));
        },
        None => {},
    }
    (best, date)
}

/// One rule for assigning duty windows.
pub trait OnDutyDateResolver {
    /// The windows this rule applies to.
    spec fn handles(&self, w: WindowModel) -> bool;

    fn can_resolve(&self, date: OnDutyDate) -> (r: bool)
        requires
            date.wf(),
        ensures
            r == self.handles(date@),
    ;

    /// Gives `date` to the eligible attendant with the fewest hours (the
    /// earliest on a tie) and records it in their ledger; gives it to no one
    /// when nobody is eligible.
    fn resolve(&self, date: OnDutyDate, attendants: &mut Vec<DutyAttendant>) -> (r: OnDutyEntry)
        requires
            date.wf(),
            self.handles(date@),
            has_room(ledger(old(attendants)@), date@.duration_hours()),
        ensures
            r.1 == date,
            index_of(r.0) == pick(ledger(old(attendants)@), date@),
            ledger(final(attendants)@) == after_pick(
                ledger(old(attendants)@),
                date@,
                index_of(r.0),
            ),
    ;
}

/// Saturday windows: not on duty the day before, no Saturday window yet.
pub struct SaturdayResolver;

impl OnDutyDateResolver for SaturdayResolver {
    open spec fn handles(&self, w: WindowModel) -> bool {
        w.is_saturday()
    }

    fn can_resolve(&self, date: OnDutyDate) -> (r: bool) {
        date.is_saturday()
    }

    fn resolve(&self, date: OnDutyDate, attendants: &mut Vec<DutyAttendant>) -> (r: OnDutyEntry) {
        resolve_window(WindowCategory::Saturday, date, attendants)
    }
}

/// Sunday windows: not on duty the day before, no Sunday window yet.
pub struct SundayResolver;

impl OnDutyDateResolver for SundayResolver {
    open spec fn handles(&self, w: WindowModel) -> bool {
        w.is_sunday()
    }

    fn can_resolve(&self, date: OnDutyDate) -> (r: bool) {
        date.is_sunday()
    }

    fn resolve(&self, date: OnDutyDate, attendants: &mut Vec<DutyAttendant>) -> (r: OnDutyEntry) {
        resolve_window(WindowCategory::Sunday, date, attendants)
    }
}

/// Every other window: not on duty the day before.
pub struct WeekdayResolver;

impl OnDutyDateResolver for WeekdayResolver {
    open spec fn handles(&self, w: WindowModel) -> bool {
        !w.is_saturday() && !w.is_sunday()
    }

    fn can_resolve(&self, date: OnDutyDate) -> (r: bool) {
        !date.is_sunday() && !date.is_saturday()
    }

    fn resolve(&self, date: OnDutyDate, attendants: &mut Vec<DutyAttendant>) -> (r: OnDutyEntry) {
        resolve_window(WindowCategory::Weekday, date, attendants)
    }
}

/// Resolves every window with the one rule that applies to it.
pub struct CompositeOnDutyResolver {
    weekday: WeekdayResolver,
    saturday: SaturdayResolver,
    sunday: SundayResolver,
}

impl CompositeOnDutyResolver {
    pub fn new() -> (r: CompositeOnDutyResolver)
        ensures
            forall|w: WindowModel| r.handles(w),
    {
        CompositeOnDutyResolver {
            weekday: WeekdayResolver,
            saturday: SaturdayResolver,
            sunday: SundayResolver,
        }
    }
}

impl OnDutyDateResolver for CompositeOnDutyResolver {
    /// Every window is a Saturday, a Sunday or another window.
    open spec fn handles(&self, w: WindowModel) -> bool {
        true
    }

    fn can_resolve(&self, date: OnDutyDate) -> (r: bool) {
        self.weekday.can_resolve(date) || self.saturday.can_resolve(date)
            || self.sunday.can_resolve(date)
    }

    fn resolve(&self, date: OnDutyDate, attendants: &mut Vec<DutyAttendant>) -> (r: OnDutyEntry) {
        match category(&date) {
            WindowCategory::Weekday => self.weekday.resolve(date, attendants),
            WindowCategory::Saturday => self.saturday.resolve(date, attendants),
            WindowCategory::Sunday => self.sunday.resolve(date, attendants),
        }
    }
}

} // verus!

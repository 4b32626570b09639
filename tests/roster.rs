use duty_roster::attendant::DutyAttendant;
use duty_roster::calendar::{CalendarDate, DateExt};
use duty_roster::period::Period;
use duty_roster::resolver::{
    CompositeOnDutyResolver, OnDutyDateResolver, SaturdayResolver, SundayResolver, WeekdayResolver,
};
use duty_roster::roster::{get_on_duty_dates, OnDutyDaysFactory, Roster};
use duty_roster::window::OnDutyDate;

fn date(year: i32, month: u8, day: u8) -> CalendarDate {
    CalendarDate::from_calendar_date(year, month, day).expect("a valid date")
}

fn april_2022(names: &[&str]) -> Roster {
    OnDutyDaysFactory::new()
        .build_on_duty_days(names, Period::new(2, 4, 2022))
        .expect("a roster for April 2022")
}

fn bounds(w: &OnDutyDate) -> (i32, u16, i32, u16) {
    let s = w.start_time();
    let e = w.end_time();
    (s.date.day_number, s.minute, e.date.day_number, e.minute)
}

#[test]
fn it_can_generate_on_duty_days() {
    let dates = get_on_duty_dates(2, 4, 2022).expect("Expected on duty dates");

    for date in dates {
        println!("{date:?}");
    }
}

#[test]
fn julian_day_numbers_match_the_calendar() {
    assert_eq!(date(2000, 1, 1).day_number, 2_451_545);
    assert_eq!(date(2019, 12, 31).day_number, 2_458_849);
    assert_eq!(date(2022, 4, 1).day_number, 2_459_671);
    assert!(CalendarDate::from_calendar_date(2022, 2, 29).is_none());
    assert!(CalendarDate::from_calendar_date(2024, 2, 29).is_some());
    assert!(CalendarDate::from_calendar_date(2022, 13, 1).is_none());
    assert!(CalendarDate::from_calendar_date(2022, 0, 1).is_none());
    assert!(CalendarDate::from_calendar_date(10000, 1, 1).is_none());
}

#[test]
fn weekdays_follow_the_calendar() {
    // 2022-04-01 is a Friday, 2022-04-02 a Saturday, 2022-04-03 a Sunday.
    assert_eq!(date(2022, 4, 1).weekday(), 4);
    assert_eq!(date(2022, 4, 2).weekday(), 5);
    assert_eq!(date(2022, 4, 3).weekday(), 6);
    assert_eq!(date(2022, 4, 4).weekday(), 0);
    assert!(!date(2022, 4, 1).is_rest_day());
    assert!(date(2022, 4, 1).has_upcoming_rest_day());
    assert!(date(2022, 4, 3).is_rest_day());
    assert!(date(2022, 4, 3).has_upcoming_working_day());
    assert!(!date(2022, 4, 2).has_upcoming_working_day());
}

#[test]
fn window_kinds_have_fixed_durations() {
    let d = date(2022, 4, 5);
    let n = d.day_number;
    let standard = OnDutyDate::create(d);
    assert_eq!(bounds(&standard), (n, 19 * 60, n + 1, 9 * 60));
    assert_eq!(standard.duration_in_hours(), 14);
    let full = OnDutyDate::create_full(d);
    assert_eq!(bounds(&full), (n, 0, n, 23 * 60 + 59));
    assert_eq!(full.duration_in_hours(), 24);
    let short = OnDutyDate::create_short(d);
    assert_eq!(bounds(&short), (n, 19 * 60, n, 23 * 60 + 59));
    assert_eq!(short.duration_in_hours(), 5);
    let handoff = OnDutyDate::create_sadness(d);
    assert_eq!(bounds(&handoff), (n, 0, n, 9 * 60));
    assert_eq!(handoff.duration_in_hours(), 9);
}

#[test]
fn april_2022_scenario() {
    let roster = april_2022(&["ana", "bob", "cid", "dan"]);
    let first = date(2022, 4, 1).day_number;
    let entries = &roster.entries;

    let friday = &entries[0].1;
    assert_eq!(bounds(friday), (first, 19 * 60, first, 23 * 60 + 59));
    assert_eq!(friday.duration_in_hours(), 5);

    let saturday = &entries[1].1;
    assert_eq!(bounds(saturday), (first + 1, 0, first + 1, 23 * 60 + 59));
    assert_eq!(saturday.duration_in_hours(), 24);
    assert!(saturday.is_saturday());
    // Nobody had a Saturday yet, and the Friday attendant is not eligible.
    let winner = entries[1].0.expect("the Saturday window is assigned");
    assert_ne!(Some(winner), entries[0].0);

    let sunday = &entries[2].1;
    assert_eq!(bounds(sunday), (first + 2, 0, first + 2, 23 * 60 + 59));
    assert_eq!(sunday.duration_in_hours(), 24);
    assert!(sunday.is_sunday());

    let handoff = &entries[3].1;
    assert_eq!(bounds(handoff), (first + 3, 0, first + 3, 9 * 60));
    assert_eq!(handoff.duration_in_hours(), 9);
}

#[test]
fn first_picks_go_by_input_order_then_hours() {
    let roster = april_2022(&["ana", "bob", "cid", "dan"]);
    let picks: Vec<Option<usize>> = roster.entries.iter().map(|e| e.0).collect();
    // Friday 5 h to ana; Saturday 24 h to bob (ana was on duty the day
    // before); Sunday to cid (bob was on duty Saturday); Monday's hand-off to
    // dan, the eligible attendant with the fewest hours; Monday evening to
    // ana (5 h), as dan now was on duty that same day, not the day before.
    assert_eq!(&picks[..5], &[Some(0), Some(1), Some(2), Some(3), Some(0)]);
}

#[test]
fn each_rule_claims_its_windows() {
    let sat = OnDutyDate::create_full(date(2022, 4, 2));
    let sun = OnDutyDate::create_full(date(2022, 4, 3));
    let mon = OnDutyDate::create_sadness(date(2022, 4, 4));
    assert!(SaturdayResolver.can_resolve(sat) && !SaturdayResolver.can_resolve(sun));
    assert!(SundayResolver.can_resolve(sun) && !SundayResolver.can_resolve(mon));
    assert!(WeekdayResolver.can_resolve(mon) && !WeekdayResolver.can_resolve(sat));
    let all = CompositeOnDutyResolver::new();
    assert!(all.can_resolve(sat) && all.can_resolve(sun) && all.can_resolve(mon));
}

// The day of the period only has to exist: the roster always covers the
// whole month, from its first day to its last, whatever day is given.
#[test]
fn day_of_period_is_ignored() {
    let a = get_on_duty_dates(1, 4, 2022).unwrap();
    let b = get_on_duty_dates(30, 4, 2022).unwrap();
    assert_eq!(a, b);
}

#[test]
fn window_count_is_days_plus_handoffs() {
    // April 2022: 30 days; the Sundays 3, 10, 17 and 24 precede a Monday.
    assert_eq!(get_on_duty_dates(1, 4, 2022).unwrap().len(), 34);
    // February 2024: 29 days; the Sundays 4, 11, 18 and 25 precede a Monday.
    assert_eq!(get_on_duty_dates(1, 2, 2024).unwrap().len(), 33);
    // April 2023 ends on a Sunday followed by Monday 1 May: its hand-off
    // window belongs to April's last day. Sundays 2, 9, 16, 23, 30.
    assert_eq!(get_on_duty_dates(1, 4, 2023).unwrap().len(), 35);
}

#[test]
fn invalid_periods_give_no_roster() {
    let factory = OnDutyDaysFactory::new();
    assert!(factory.build_on_duty_days(&["a"], Period::new(30, 2, 2022)).is_none());
    assert!(factory.build_on_duty_days(&["a"], Period::new(1, 13, 2022)).is_none());
    assert!(factory.build_on_duty_days(&["a"], Period::new(0, 1, 2022)).is_none());
    // The last month that `time` represents has no following day.
    assert!(factory.build_on_duty_days(&["a"], Period::new(1, 12, 9999)).is_none());
    assert!(factory.build_on_duty_days(&["a"], Period::new(1, 11, 9999)).is_some());
}

#[test]
fn hours_equal_assigned_durations() {
    let roster = april_2022(&["ana", "bob", "cid", "dan", "eve"]);
    for (i, a) in roster.attendants.iter().enumerate() {
        let sum: u64 = roster
            .entries
            .iter()
            .filter(|e| e.0 == Some(i))
            .map(|e| e.1.duration_in_hours())
            .sum();
        assert_eq!(a.total_hours(), sum);
    }
}

#[test]
fn no_attendant_serves_consecutive_days() {
    for names in [&["a", "b"][..], &["a", "b", "c"][..], &["a", "b", "c", "d", "e", "f"][..]] {
        let roster = april_2022(names);
        for (i, x) in roster.entries.iter().enumerate() {
            for y in &roster.entries[i + 1..] {
                if x.0.is_some() && x.0 == y.0 {
                    let dx = x.1.start_time().date.day_number;
                    let dy = y.1.start_time().date.day_number;
                    assert_ne!((dx - dy).abs(), 1);
                }
            }
        }
    }
}

#[test]
fn saturday_flag_set_for_saturday_winners() {
    let roster = april_2022(&["ana", "bob", "cid", "dan", "eve", "fay", "gus"]);
    for e in &roster.entries {
        if let Some(i) = e.0 {
            if e.1.is_saturday() {
                assert!(roster.attendants[i].has_saturday());
            }
            if e.1.is_sunday() {
                assert!(roster.attendants[i].has_sunday());
            }
        }
    }
    // Seven attendants and five Saturdays: five distinct Saturday attendants.
    let mut sat: Vec<usize> = roster
        .entries
        .iter()
        .filter(|e| e.1.is_saturday())
        .filter_map(|e| e.0)
        .collect();
    sat.sort();
    sat.dedup();
    assert_eq!(sat.len(), 5);
}

#[test]
fn one_attendant_leaves_windows_unassigned() {
    // With one attendant, every window after the first on a following day
    // finds nobody eligible.
    let roster = april_2022(&["solo"]);
    assert_eq!(roster.entries[0].0, Some(0));
    assert_eq!(roster.entries[1].0, None);
}

#[test]
fn fifth_saturday_is_assigned_once_everyone_had_both() {
    // April 2022 has Saturdays 2, 9, 16, 23 and 30 and Sundays 3, 10, 17
    // and 24: by the 30th each of the four attendants has had both.
    let roster = april_2022(&["ana", "bob", "cid", "dan"]);
    for a in &roster.attendants {
        assert!(a.has_saturday() && a.has_sunday());
    }
    let last = roster.entries.last().unwrap();
    assert!(last.1.is_saturday());
    assert_eq!(last.1.start_time().date, date(2022, 4, 30));
    let winner = last.0.expect("the fifth Saturday is assigned");
    // Not the attendant of the Friday evening before.
    let friday = &roster.entries[roster.entries.len() - 2];
    assert_eq!(friday.1.start_time().date, date(2022, 4, 29));
    assert_ne!(friday.0, Some(winner));
}

#[test]
fn weekend_gate_lapses_when_everyone_had_both() {
    let resolver = CompositeOnDutyResolver::new();
    let mut attendants = vec![DutyAttendant::new("a"), DutyAttendant::new("b")];
    attendants[0].update(&OnDutyDate::create_full(date(2022, 4, 2)));
    attendants[0].update(&OnDutyDate::create_full(date(2022, 4, 10)));
    attendants[1].update(&OnDutyDate::create_full(date(2022, 4, 9)));
    // Only "a" has had both: the Saturday gate still blocks both of them.
    let (pick, _) = resolver.resolve(OnDutyDate::create_full(date(2022, 4, 16)), &mut attendants);
    assert_eq!(pick, None);
    attendants[1].update(&OnDutyDate::create_full(date(2022, 4, 3)));
    // Now both have: the one with fewer hours (equal: the first) takes it.
    let (sat, _) = resolver.resolve(OnDutyDate::create_full(date(2022, 4, 23)), &mut attendants);
    assert_eq!(sat, Some(0));
    let (sun, _) = resolver.resolve(OnDutyDate::create_full(date(2022, 4, 24)), &mut attendants);
    assert_eq!(sun, Some(1));
}

#[test]
fn fewer_hours_win() {
    let resolver = CompositeOnDutyResolver::new();
    let mut attendants = vec![DutyAttendant::new("busy"), DutyAttendant::new("idle")];
    // Give "busy" a window far from the one resolved next.
    let early = OnDutyDate::create(date(2022, 4, 12));
    attendants[0].update(&early);
    assert_eq!(attendants[0].total_hours(), 14);
    let w = OnDutyDate::create(date(2022, 4, 19));
    let (pick, window) = resolver.resolve(w, &mut attendants);
    assert_eq!(pick, Some(1));
    assert_eq!(window, w);
    assert_eq!(attendants[1].total_hours(), 14);
    assert!(attendants[1].is_on_duty(date(2022, 4, 19)));
    // Equal hours: the first in input order wins.
    let w2 = OnDutyDate::create(date(2022, 4, 25));
    let (pick2, _) = resolver.resolve(w2, &mut attendants);
    assert_eq!(pick2, Some(0));
}

#[test]
fn attendant_ledger_records_windows() {
    let mut a = DutyAttendant::new("ana");
    assert_eq!(a.name(), "ana");
    assert_eq!(a.total_hours(), 0);
    assert!(!a.has_saturday() && !a.has_sunday());
    a.update(&OnDutyDate::create_full(date(2022, 4, 2)));
    assert!(a.has_saturday());
    assert!(!a.has_sunday());
    a.update(&OnDutyDate::create_sadness(date(2022, 4, 4)));
    assert!(a.has_saturday());
    assert_eq!(a.total_hours(), 33);
    assert!(a.is_on_duty(date(2022, 4, 2)));
    assert!(a.is_on_duty(date(2022, 4, 4)));
    assert!(!a.is_on_duty(date(2022, 4, 3)));
}

#[test]
fn previous_day_check() {
    let mut a = DutyAttendant::new("ana");
    a.update(&OnDutyDate::create(date(2022, 4, 5)));
    let next = OnDutyDate::create(date(2022, 4, 6));
    let later = OnDutyDate::create(date(2022, 4, 7));
    assert!(duty_roster::resolver::is_on_duty_in_previous_day(next, &a));
    assert!(!duty_roster::resolver::is_on_duty_in_previous_day(later, &a));
}

#[test]
fn periods_parse_from_text() {
    let p = Period::parse("2022-04-02").expect("a valid period");
    assert_eq!((p.day(), p.month(), p.year()), (2, 4, 2022));
    assert!(Period::parse("2022-13-01").is_err());
    assert!(Period::parse("2022-02-30").is_err());
    assert!(Period::parse("april").is_err());
    let q: Period = "2024-02-29".parse().unwrap();
    assert_eq!(q, Period::new(29, 2, 2024));
}

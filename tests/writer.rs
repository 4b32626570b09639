use duty_roster::calendar::CalendarDate;
use duty_roster::period::Period;
use duty_roster::roster::OnDutyDaysFactory;
use duty_roster::window::OnDutyDate;
use duty_roster::writer::{push_clock, push_decimal, push_time, push_weekday, CsvWriter};

fn text(bytes: Vec<u8>) -> String {
    String::from_utf8(bytes).expect("ASCII text")
}

#[test]
fn writes_april_2022_lines() {
    let roster = OnDutyDaysFactory::new()
        .build_on_duty_days(&["ana", "bob", "cid", "dan"], Period::new(2, 4, 2022))
        .unwrap();
    let csv = text(CsvWriter.write(&roster.entries, &roster.attendants));
    let lines: Vec<&str> = csv.split("\r\n").collect();
    assert_eq!(lines[0], "2022-04-01,ana,Friday 19:00:00.0,Friday 23:59:00.0,5,false");
    assert_eq!(lines[1], "2022-04-02,bob,Saturday 0:00:00.0,Saturday 23:59:00.0,24,true");
    assert_eq!(lines[2], "2022-04-03,cid,Sunday 0:00:00.0,Sunday 23:59:00.0,24,true");
    assert_eq!(lines[3], "2022-04-04,dan,Monday 0:00:00.0,Monday 9:00:00.0,9,false");
    assert_eq!(lines[4], "2022-04-04,ana,Monday 19:00:00.0,Tuesday 9:00:00.0,14,false");
    assert_eq!(lines.len(), 35);
    assert_eq!(lines[34], "");
    assert!(csv.ends_with("\r\n"));
}

#[test]
fn unassigned_window_has_empty_name() {
    let roster = OnDutyDaysFactory::new()
        .build_on_duty_days(&["solo"], Period::new(1, 4, 2022))
        .unwrap();
    let csv = text(CsvWriter.write(&roster.entries, &roster.attendants));
    let second = csv.split("\r\n").nth(1).unwrap();
    assert_eq!(second, "2022-04-02,,Saturday 0:00:00.0,Saturday 23:59:00.0,24,true");
}

#[test]
fn single_row_text() {
    let d = CalendarDate::from_calendar_date(1999, 12, 31).unwrap();
    let w = OnDutyDate::create(d);
    let mut out = Vec::new();
    CsvWriter.write_row(&mut out, &(None, w), &Vec::new());
    assert_eq!(text(out), "1999-12-31,,Friday 19:00:00.0,Saturday 9:00:00.0,14,false\r\n");
}

#[test]
fn numbers_and_clocks_render() {
    let mut out = Vec::new();
    push_decimal(&mut out, 0);
    out.push(b'|');
    push_decimal(&mut out, 1234567890);
    out.push(b'|');
    push_time(&mut out, 9 * 60 + 5);
    out.push(b'|');
    push_weekday(&mut out, 2);
    out.push(b'|');
    let d = CalendarDate::from_calendar_date(2022, 4, 3).unwrap();
    push_clock(&mut out, OnDutyDate::create_full(d).end_time());
    assert_eq!(text(out), "0|1234567890|9:05:00.0|Wednesday|Sunday 23:59:00.0");
}

#[test]
fn rendered_fields_parse_back() {
    // The hour and minute written for each window read back to its bounds.
    let roster = OnDutyDaysFactory::new()
        .build_on_duty_days(&["a", "b", "c"], Period::new(1, 4, 2022))
        .unwrap();
    let csv = text(CsvWriter.write(&roster.entries, &roster.attendants));
    let names = ["Monday", "Tuesday", "Wednesday", "Thursday", "Friday", "Saturday", "Sunday"];
    for (line, entry) in csv.split("\r\n").zip(roster.entries.iter()) {
        let fields: Vec<&str> = line.split(',').collect();
        for (field, at) in [(fields[2], entry.1.start_time()), (fields[3], entry.1.end_time())] {
            let (name, clock) = field.split_once(' ').unwrap();
            let weekday = names.iter().position(|n| *n == name).unwrap();
            let parts: Vec<&str> = clock.split(':').collect();
            let minute = parts[0].parse::<u16>().unwrap() * 60 + parts[1].parse::<u16>().unwrap();
            assert_eq!(weekday as u8, at.date.weekday());
            assert_eq!(minute, at.minute);
        }
        assert_eq!(fields[4].parse::<u64>().unwrap(), entry.1.duration_in_hours());
    }
}

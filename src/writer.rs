//! Comma-separated text of a roster, one line per window, `\r\n` line ends.

use vstd::prelude::*;
use vstd::utf8::encode_utf8;
use crate::attendant::DutyAttendant;
use crate::calendar::{in_date_range, weekday_of};
use crate::resolver::OnDutyEntry;
use crate::window::{DateTime, OnDutyDate, WindowModel};

verus! {

/// The text of the calendar date of a Julian day number, as `YYYY-MM-DD`.
pub uninterp spec fn date_text(day: int) -> Seq<u8>;

/// Relies on `time::Date::from_julian_day` and the `Display` of `time::Date`:
/// the text of the date, which depends on the day number alone and is made
/// of a sign, digits and hyphens, with no comma.
#[verifier::external_body]
fn format_date(day: i32) -> (r: Vec<u8>)
    requires
        in_date_range(day as int),
    ensures
        r@ == date_text(day as int),
        lacks(r@, 44u8),
{
    match time::Date::from_julian_day(day) {
        Ok(date) => date.to_string().into_bytes(),
        Err(_) => Vec::new(),
    }
}

pub open spec fn digit(d: int) -> u8 {
    (48 + d) as u8
}

/// Decimal digits of `n`, without leading zeros.
pub open spec fn decimal(n: nat) -> Seq<u8>
    decreases n,
{
    if n < 10 {
        seq![digit(n as int)]
    } else {
        decimal(n / 10).push(digit((n % 10) as int))
    }
}

/// English name of a weekday, Monday being zero.
pub open spec fn weekday_name(weekday: int) -> Seq<u8> {
    if weekday == 0 {
        // Monday
        seq![77u8, 111u8, 110u8, 100u8, 97u8, 121u8]
    } else if weekday == 1 {
        // Tuesday
        seq![84u8, 117u8, 101u8, 115u8, 100u8, 97u8, 121u8]
    } else if weekday == 2 {
        // Wednesday
        seq![87u8, 101u8, 100u8, 110u8, 101u8, 115u8, 100u8, 97u8, 121u8]
    } else if weekday == 3 {
        // Thursday
        seq![84u8, 104u8, 117u8, 114u8, 115u8, 100u8, 97u8, 121u8]
    } else if weekday == 4 {
        // Friday
        seq![70u8, 114u8, 105u8, 100u8, 97u8, 121u8]
    } else if weekday == 5 {
        // Saturday
        seq![83u8, 97u8, 116u8, 117u8, 114u8, 100u8, 97u8, 121u8]
    } else {
        // Sunday
        seq![83u8, 117u8, 110u8, 100u8, 97u8, 121u8]
    }
}

/// Time of day as `H:MM:SS.0`, the hour without padding.
pub open spec fn time_text(minute: int) -> Seq<u8> {
    decimal((minute / 60) as nat) + seq![
        58u8,
        digit((minute % 60) / 10),
        digit(minute % 10),
        58u8,
        48u8,
        48u8,
        46u8,
        48u8,
    ]
}

/// A weekday and a time of day, separated by a space.
pub open spec fn clock_text(weekday: int, minute: int) -> Seq<u8> {
    weekday_name(weekday) + seq![32u8] + time_text(minute)
}

pub open spec fn bool_text(b: bool) -> Seq<u8> {
    if b {
        seq![116u8, 114u8, 117u8, 101u8]
    } else {
        seq![102u8, 97u8, 108u8, 115u8, 101u8]
    }
}

/// The line of one window: start date, attendant name (empty when nobody
/// was assigned), start and end clock, hours, and whether it is a weekend window.
pub open spec fn row_text(name: Seq<u8>, w: WindowModel) -> Seq<u8> {
    date_text(w.start_day) + seq![44u8] + name + seq![44u8] + clock_text(
        weekday_of(w.start_day),
        w.start_minute,
    ) + seq![44u8] + clock_text(weekday_of(w.end_day), w.end_minute) + seq![44u8] + decimal(
        w.duration_hours() as nat,
    ) + seq![44u8] + bool_text(w.is_saturday() || w.is_sunday()) + seq![13u8, 10u8]
}

/// The bytes of the name of the attendant of an entry, or none.
pub open spec fn entry_name(entry: OnDutyEntry, attendants: Seq<DutyAttendant>) -> Seq<u8> {
    match entry.0 {
        Some(i) => encode_utf8(attendants[i as int]@.name),
        None => seq![],
    }
}

/// The lines of the first `n` entries.
pub open spec fn csv_text(entries: Seq<OnDutyEntry>, attendants: Seq<DutyAttendant>, n: nat) -> Seq<
    u8,
>
    decreases n,
{
    if n == 0 {
        seq![]
    } else {
        csv_text(entries, attendants, (n - 1) as nat) + row_text(
            entry_name(entries[n - 1], attendants),
            entries[n - 1].1@,
        )
    }
}

pub open spec fn entries_valid(entries: Seq<OnDutyEntry>, attendants: Seq<DutyAttendant>) -> bool {
    forall|k: int|
        #![trigger entries[k]]
        0 <= k < entries.len() ==> entries[k].1.wf() && (entries[k].0 matches Some(i) ==> i
            < attendants.len())
}

/// The number that a sequence of decimal digits denotes.
pub open spec fn digits_value(s: Seq<u8>) -> int
    decreases s.len(),
{
    if s.len() == 0 {
        0
    } else {
        digits_value(s.drop_last()) * 10 + (s.last() - 48)
    }
}

/// The weekday whose English name is `s`, if there is one.
pub open spec fn weekday_named(s: Seq<u8>) -> Option<int> {
    if s == weekday_name(0) {
        Some(0)
    } else if s == weekday_name(1) {
        Some(1)
    } else if s == weekday_name(2) {
        Some(2)
    } else if s == weekday_name(3) {
        Some(3)
    } else if s == weekday_name(4) {
        Some(4)
    } else if s == weekday_name(5) {
        Some(5)
    } else if s == weekday_name(6) {
        Some(6)
    } else {
        None
    }
}

/// Index of the first byte `b` in `s`, or its length when there is none.
pub open spec fn byte_index(s: Seq<u8>, b: u8) -> int
    decreases s.len(),
{
    if s.len() == 0 {
        0
    } else if s[0] == b {
        0
    } else {
        1 + byte_index(s.subrange(1, s.len() as int), b)
    }
}

pub open spec fn lacks(s: Seq<u8>, b: u8) -> bool {
    forall|i: int| 0 <= i < s.len() ==> s[i] != b
}

/// The comma-separated fields of a text.
pub open spec fn split_commas(s: Seq<u8>) -> Seq<Seq<u8>>
    decreases s.len(),
{
    let i = byte_index(s, 44u8);
    if i < 0 || i >= s.len() {
        seq![s]
    } else {
        seq![s.subrange(0, i)] + split_commas(s.subrange(i + 1, s.len() as int))
    }
}

/// Reads a weekday and a time of day, in minutes, back from a clock text:
/// the name before the first space, the hour up to the colon that opens the
/// last eight bytes, and the two minute digits after that colon.
pub open spec fn read_clock(s: Seq<u8>) -> Option<(int, int)> {
    let n = s.len() as int;
    let sp = byte_index(s, 32u8);
    if n < 10 || sp + 1 >= n - 8 {
        None
    } else {
        match weekday_named(s.subrange(0, sp)) {
            Some(w) => Some(
                (
                    w,
                    digits_value(s.subrange(sp + 1, n - 8)) * 60 + (s[n - 7] - 48) * 10 + (s[n
                        - 6] - 48),
                ),
            ),
            None => None,
        }
    }
}

/// Reading the digits of a number gives back the number.
pub proof fn lemma_decimal_round_trip(n: nat)
    ensures
        digits_value(decimal(n)) == n,
        decimal(n).len() >= 1,
        forall|i: int| 0 <= i < decimal(n).len() ==> 48 <= #[trigger] decimal(n)[i] <= 57,
    decreases n,
{
    if n >= 10 {
        lemma_decimal_round_trip(n / 10);
        assert(decimal(n).drop_last() =~= decimal(n / 10));
        assert(decimal(n).last() == digit((n % 10) as int));
        assert(digit((n % 10) as int) - 48 == n % 10);
        assert(digits_value(decimal(n)) == digits_value(decimal(n / 10)) * 10 + n % 10);
        assert((n / 10) * 10 + n % 10 == n);
    } else {
        assert(decimal(n).drop_last() =~= Seq::<u8>::empty());
        assert(decimal(n).last() == digit(n as int));
        assert(digit(n as int) - 48 == n);
        assert(digits_value(decimal(n)) == digits_value(Seq::<u8>::empty()) * 10 + n);
    }
}

proof fn lemma_byte_index(prefix: Seq<u8>, b: u8, rest: Seq<u8>)
    requires
        lacks(prefix, b),
    ensures
        byte_index(prefix + seq![b] + rest, b) == prefix.len(),
    decreases prefix.len(),
{
    let s = prefix + seq![b] + rest;
    if prefix.len() > 0 {
        let tail = prefix.subrange(1, prefix.len() as int);
        lemma_byte_index(tail, b, rest);
        assert(s.subrange(1, s.len() as int) =~= tail + seq![b] + rest);
    }
}

proof fn lemma_byte_absent(s: Seq<u8>, b: u8)
    requires
        lacks(s, b),
    ensures
        byte_index(s, b) == s.len(),
    decreases s.len(),
{
    if s.len() > 0 {
        lemma_byte_absent(s.subrange(1, s.len() as int), b);
    }
}

/// A field without commas followed by a comma splits off as the first field.
proof fn lemma_split_field(field: Seq<u8>, rest: Seq<u8>)
    requires
        lacks(field, 44u8),
    ensures
        split_commas(field + seq![44u8] + rest) == seq![field] + split_commas(rest),
{
    let s = field + seq![44u8] + rest;
    lemma_byte_index(field, 44u8, rest);
    assert(s.subrange(0, field.len() as int) =~= field);
    assert(s.subrange(field.len() as int + 1, s.len() as int) =~= rest);
}

proof fn lemma_weekday_named(w: int)
    requires
        0 <= w < 7,
    ensures
        weekday_named(weekday_name(w)) == Some(w),
        lacks(weekday_name(w), 32u8),
        lacks(weekday_name(w), 44u8),
{
    let names = seq![
        weekday_name(0),
        weekday_name(1),
        weekday_name(2),
        weekday_name(3),
        weekday_name(4),
        weekday_name(5),
        weekday_name(6),
    ];
    assert(weekday_name(0)[0] != weekday_name(1)[0]);
    assert(weekday_name(0)[0] != weekday_name(2)[0]);
    assert(weekday_name(0)[0] != weekday_name(3)[0]);
    assert(weekday_name(0)[0] != weekday_name(4)[0]);
    assert(weekday_name(0)[0] != weekday_name(5)[0]);
    assert(weekday_name(0)[0] != weekday_name(6)[0]);
    assert(weekday_name(1)[1] != weekday_name(3)[1]);
    assert(weekday_name(1).len() != weekday_name(2).len());
    assert(weekday_name(1)[0] != weekday_name(4)[0]);
    assert(weekday_name(1)[0] != weekday_name(5)[0]);
    assert(weekday_name(1)[0] != weekday_name(6)[0]);
    assert(weekday_name(2)[0] != weekday_name(3)[0]);
    assert(weekday_name(2)[0] != weekday_name(4)[0]);
    assert(weekday_name(2)[0] != weekday_name(5)[0]);
    assert(weekday_name(2)[0] != weekday_name(6)[0]);
    assert(weekday_name(3)[0] != weekday_name(4)[0]);
    assert(weekday_name(3)[0] != weekday_name(5)[0]);
    assert(weekday_name(3)[0] != weekday_name(6)[0]);
    assert(weekday_name(4)[0] != weekday_name(5)[0]);
    assert(weekday_name(4)[0] != weekday_name(6)[0]);
    assert(weekday_name(5)[1] != weekday_name(6)[1]);
}

/// Reading a rendered weekday and time of day gives back the weekday and
/// the minute after midnight.
pub proof fn lemma_clock_round_trip(weekday: int, minute: int)
    requires
        0 <= weekday < 7,
        0 <= minute < 1440,
    ensures
        read_clock(clock_text(weekday, minute)) == Some((weekday, minute)),
{
    let name = weekday_name(weekday);
    let hour = decimal((minute / 60) as nat);
    let tail = seq![
        58u8,
        digit((minute % 60) / 10),
        digit(minute % 10),
        58u8,
        48u8,
        48u8,
        46u8,
        48u8,
    ];
    let s = clock_text(weekday, minute);
    lemma_weekday_named(weekday);
    lemma_decimal_round_trip((minute / 60) as nat);
    assert(s =~= name + seq![32u8] + (hour + tail));
    lemma_byte_index(name, 32u8, hour + tail);
    let n = s.len() as int;
    let sp = name.len() as int;
    assert(s.subrange(0, sp) =~= name);
    assert(s.subrange(sp + 1, n - 8) =~= hour);
    assert(s[n - 7] == digit((minute % 60) / 10));
    assert(s[n - 6] == digit(minute % 10));
    assert((minute / 60) * 60 + ((minute % 60) / 10) * 10 + minute % 10 == minute);
}

/// The start clock, end clock and hours written for a window read back as
/// the window's start and end weekday and minute and its duration.
pub proof fn lemma_window_fields_round_trip(w: WindowModel)
    requires
        w.wf(),
    ensures
        read_clock(clock_text(weekday_of(w.start_day), w.start_minute)) == Some(
            (weekday_of(w.start_day), w.start_minute),
        ),
        read_clock(clock_text(weekday_of(w.end_day), w.end_minute)) == Some(
            (weekday_of(w.end_day), w.end_minute),
        ),
        digits_value(decimal(w.duration_hours() as nat)) == w.duration_hours(),
{
    lemma_clock_round_trip(weekday_of(w.start_day), w.start_minute);
    lemma_clock_round_trip(weekday_of(w.end_day), w.end_minute);
    lemma_decimal_round_trip(w.duration_hours() as nat);
}

proof fn lemma_clock_lacks_comma(weekday: int, minute: int)
    requires
        0 <= weekday < 7,
        0 <= minute < 1440,
    ensures
        lacks(clock_text(weekday, minute), 44u8),
{
    lemma_weekday_named(weekday);
    lemma_decimal_round_trip((minute / 60) as nat);
    let s = clock_text(weekday, minute);
    let name = weekday_name(weekday);
    let hour = decimal((minute / 60) as nat);
    assert forall|i: int| 0 <= i < s.len() implies s[i] != 44u8 by {
        if i < name.len() {
            assert(s[i] == name[i]);
        } else if i > name.len() && i < name.len() + 1 + hour.len() {
            assert(s[i] == hour[i - name.len() - 1]);
        }
    }
}

/// A line splits at its commas into six fields: the date; the name; the
/// start and end clocks, which read back as the window's start and end
/// weekday and minute; the hours, which read back as its duration; and the
/// weekend flag followed by the line end.
pub proof fn lemma_row_round_trip(name: Seq<u8>, w: WindowModel)
    requires
        w.wf(),
        lacks(name, 44u8),
        lacks(date_text(w.start_day), 44u8),
    ensures
        ({
            let f = split_commas(row_text(name, w));
            &&& f.len() == 6
            &&& f[0] == date_text(w.start_day)
            &&& f[1] == name
            &&& read_clock(f[2]) == Some((weekday_of(w.start_day), w.start_minute))
            &&& read_clock(f[3]) == Some((weekday_of(w.end_day), w.end_minute))
            &&& digits_value(f[4]) == w.duration_hours()
            &&& f[5] == bool_text(w.is_saturday() || w.is_sunday()) + seq![13u8, 10u8]
        }),
{
    let date = date_text(w.start_day);
    let c1 = clock_text(weekday_of(w.start_day), w.start_minute);
    let c2 = clock_text(weekday_of(w.end_day), w.end_minute);
    let hours = decimal(w.duration_hours() as nat);
    let last = bool_text(w.is_saturday() || w.is_sunday()) + seq![13u8, 10u8];
    lemma_window_fields_round_trip(w);
    lemma_clock_lacks_comma(weekday_of(w.start_day), w.start_minute);
    lemma_clock_lacks_comma(weekday_of(w.end_day), w.end_minute);
    lemma_decimal_round_trip(w.duration_hours() as nat);
    assert(lacks(hours, 44u8));
    assert(lacks(last, 44u8));
    let r5 = last;
    let r4 = hours + seq![44u8] + r5;
    let r3 = c2 + seq![44u8] + r4;
    let r2 = c1 + seq![44u8] + r3;
    let r1 = name + seq![44u8] + r2;
    assert(row_text(name, w) =~= date + seq![44u8] + r1);
    lemma_byte_absent(r5, 44u8);
    lemma_split_field(hours, r5);
    lemma_split_field(c2, r4);
    lemma_split_field(c1, r3);
    lemma_split_field(name, r2);
    lemma_split_field(date, r1);
    let f = split_commas(row_text(name, w));
    assert(split_commas(r5) == seq![r5]);
    assert(f =~= seq![date, name, c1, c2, hours, r5]);
}

/// Appends the decimal digits of `n`.
pub fn push_decimal(out: &mut Vec<u8>, n: u64)
    ensures
        final(out)@ == old(out)@ + decimal(n as nat),
    decreases n,
{
    if n >= 10 {
        push_decimal(out, n / 10);
    }
    out.push(48 + (n % 10) as u8);
    assert(final(out)@ =~= old(out)@ + decimal(n as nat));
}

fn push_bytes(out: &mut Vec<u8>, bytes: &[u8])
    ensures
        final(out)@ == old(out)@ + bytes@,
{
    let mut i: usize = 0;
    while i < bytes.len()
        invariant
            i <= bytes@.len(),
            out@ == old(out)@ + bytes@.take(i as int),
        decreases bytes@.len() - i,
    {
        out.push(bytes[i]);
        assert(bytes@.take(i + 1) =~= bytes@.take(i as int).push(bytes@[i as int]));
        i = i + 1;
    }
    assert(bytes@.take(bytes@.len() as int) =~= bytes@);
}

/// Appends the English name of a weekday.
pub fn push_weekday(out: &mut Vec<u8>, weekday: u8)
    requires
        weekday < 7,
    ensures
        final(out)@ == old(out)@ + weekday_name(weekday as int),
{
    let name: &[u8] = if weekday == 0 {
        &[77, 111, 110, 100, 97, 121]
    } else if weekday == 1 {
        &[84, 117, 101, 115, 100, 97, 121]
    } else if weekday == 2 {
        &[87, 101, 100, 110, 101, 115, 100, 97, 121]
    } else if weekday == 3 {
        &[84, 104, 117, 114, 115, 100, 97, 121]
    } else if weekday == 4 {
        &[70, 114, 105, 100, 97, 121]
    } else if weekday == 5 {
        &[83, 97, 116, 117, 114, 100, 97, 121]
    } else {
        &[83, 117, 110, 100, 97, 121]
    };
    push_bytes(out, name);
}

/// Appends a time of day given in minutes after midnight.
pub fn push_time(out: &mut Vec<u8>, minute: u16)
    requires
        minute < 1440,
    ensures
        final(out)@ == old(out)@ + time_text(minute as int),
{
    push_decimal(out, (minute / 60) as u64);
    let ghost hours = out@;
    out.push(58);
    out.push(48 + ((minute % 60) / 10) as u8);
    out.push(48 + (minute % 10) as u8);
    out.push(58);
    out.push(48);
    out.push(48);
    out.push(46);
    out.push(48);
    assert(out@ =~= old(out)@ + time_text(minute as int));
}

/// Appends the weekday and the time of day of a timestamp.
pub fn push_clock(out: &mut Vec<u8>, at: DateTime)
    requires
        at.date.wf(),
        at.minute < 1440,
    ensures
        final(out)@ == old(out)@ + clock_text(weekday_of(at.date.day()), at.minute as int),
{
    push_weekday(out, at.date.weekday());
    out.push(32);
    push_time(out, at.minute);
    assert(out@ =~= old(out)@ + clock_text(weekday_of(at.date.day()), at.minute as int));
}

fn push_bool(out: &mut Vec<u8>, b: bool)
    ensures
        final(out)@ == old(out)@ + bool_text(b),
{
    if b {
        push_bytes(out, &[116, 114, 117, 101]);
    } else {
        push_bytes(out, &[102, 97, 108, 115, 101]);
    }
}

/// Renders roster entries as comma-separated lines.
pub struct CsvWriter;

impl CsvWriter {
    /// Appends the line of one entry.
    pub fn write_row(&self, out: &mut Vec<u8>, entry: &OnDutyEntry, attendants: &Vec<DutyAttendant>)
        requires
            entry.1.wf(),
            entry.0 matches Some(i) ==> i < attendants@.len(),
        ensures
            final(out)@ == old(out)@ + row_text(entry_name(*entry, attendants@), entry.1@),
    {
        let date = entry.1;
        let start = date.start_time();
        let end = date.end_time();
        let mut row = format_date(start.date.day_number);
        row.push(44);
        match entry.0 {
            Some(i) => push_bytes(&mut row, attendants[i].name().as_bytes()),
            None => {},
        }
        row.push(44);
        push_clock(&mut row, start);
        row.push(44);
        push_clock(&mut row, end);
        row.push(44);
        push_decimal(&mut row, date.duration_in_hours());
        row.push(44);
        let weekend = date.is_saturday() || date.is_sunday();
        push_bool(&mut row, weekend);
        row.push(13);
        row.push(10);
        assert(row@ =~= row_text(entry_name(*entry, attendants@), entry.1@));
        out.append(&mut row);
    }

    /// The lines of all entries, in order.
    pub fn write(&self, entries: &Vec<OnDutyEntry>, attendants: &Vec<DutyAttendant>) -> (r: Vec<u8>)
        requires
            entries_valid(entries@, attendants@),
        ensures
            r@ == csv_text(entries@, attendants@, entries@.len()),
    {
        let mut out: Vec<u8> = Vec::new();
        let mut k: usize = 0;
        while k < entries.len()
            invariant
                k <= entries@.len(),
                entries_valid(entries@, attendants@),
                out@ == csv_text(entries@, attendants@, k as nat),
            decreases entries@.len() - k,
        {
            self.write_row(&mut out, &entries[k], attendants);
            k = k + 1;
        }
        out
    }
}

} // verus!

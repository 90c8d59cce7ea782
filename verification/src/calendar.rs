//! The calendar reading of a message's time, and the texts that the journal
//! derives from it: document path, month title, day marker and time stamp.

use chrono::Datelike;
use chrono::Timelike;
use vstd::prelude::*;
use vstd::string::*;

use crate::text::{
    lemma_decimal_digits, lemma_padded_digits, lemma_padded_two_wide, lemma_padded_value, padded,
    push_padded, push_signed, signed_decimal, single_lined, COLON, HASH, MINUS, PLUS, SLASH,
    SPACE,
};

verus! {

/// The journal keeps local time eight hours east of Greenwich.
pub const JOURNAL_OFFSET: i32 = 28800;

/// A moment as the calendar and the clock of one place show it.
#[derive(Clone, Copy, Debug, PartialEq, Eq)]
pub struct EntryTime {
    pub year: i32,
    /// 1 to 12.
    pub month: u32,
    /// 1 to 31.
    pub day: u32,
    /// 0 to 23.
    pub hour: u32,
    /// 0 to 59.
    pub minute: u32,
    /// 0 to 59.
    pub second: u32,
    /// Days since Monday, 0 to 6.
    pub weekday: u32,
}

/// The reading that chrono gives of the moment `secs` seconds after the Unix
/// epoch, on a clock `offset` seconds east of Greenwich; `None` where chrono
/// has no such moment or no such offset.
pub uninterp spec fn local_time(secs: int, offset: int) -> Option<EntryTime>;

/// Reads the calendar and the clock through chrono: `DateTime::from_timestamp`
/// makes the moment, `DateTime::with_timezone` moves it to the offset that
/// `FixedOffset::east_opt` makes, and the getters of `Datelike` and `Timelike`
/// hand out the fields. The result is named `local_time`; nothing is claimed of
/// it but that the fields lie in the ranges that chrono documents for these
/// getters.
#[verifier::external_body]
fn read_local_time(secs: i64, offset: i32) -> (reading: Option<EntryTime>)
    ensures
        reading == local_time(secs as int, offset as int),
        reading matches Some(time) ==> time.well_formed(),
{
    let utc = chrono::DateTime::from_timestamp(secs, 0)?;
    let local = utc.with_timezone(&chrono::FixedOffset::east_opt(offset)?);
    Some(EntryTime {
        year: local.year(),
        month: local.month(),
        day: local.day(),
        hour: local.hour(),
        minute: local.minute(),
        second: local.second(),
        weekday: local.weekday().num_days_from_monday(),
    })
}

/// The name of the day that lies `weekday` days after a Monday.
pub open spec fn weekday_name(weekday: u32) -> Seq<u8> {
    if weekday == 0 {
        "Monday".spec_bytes()
    } else if weekday == 1 {
        "Tuesday".spec_bytes()
    } else if weekday == 2 {
        "Wednesday".spec_bytes()
    } else if weekday == 3 {
        "Thursday".spec_bytes()
    } else if weekday == 4 {
        "Friday".spec_bytes()
    } else if weekday == 5 {
        "Saturday".spec_bytes()
    } else {
        "Sunday".spec_bytes()
    }
}

/// A year in at least four digits; outside 0 to 9999 a sign stands first.
pub open spec fn long_year(year: int) -> Seq<u8> {
    if year < 0 {
        seq![MINUS] + padded((-year) as nat, 4)
    } else if year > 9999 {
        seq![PLUS] + padded(year as nat, 4)
    } else {
        padded(year as nat, 4)
    }
}

impl EntryTime {
    /// Every field lies in the range of its unit.
    pub open spec fn well_formed(&self) -> bool {
        &&& 1 <= self.month <= 12
        &&& 1 <= self.day <= 31
        &&& self.hour < 24
        &&& self.minute < 60
        &&& self.second < 60
        &&& self.weekday < 7
    }

    /// Two readings fall on one calendar day.
    pub open spec fn same_day(&self, other: EntryTime) -> bool {
        self.year == other.year && self.month == other.month && self.day == other.day
    }

    /// Year, month and day, as in `2024-03-15`.
    pub open spec fn date_text(&self) -> Seq<u8> {
        long_year(self.year as int) + seq![MINUS] + padded(self.month as nat, 2) + seq![MINUS]
            + padded(self.day as nat, 2)
    }

    /// Hour, minute and second, as in `18:00:00`.
    pub open spec fn clock_text(&self) -> Seq<u8> {
        padded(self.hour as nat, 2) + seq![COLON] + padded(self.minute as nat, 2) + seq![COLON]
            + padded(self.second as nat, 2)
    }

    /// Date, time and the day's name, as in `2024-03-15 18:00:00 Friday`.
    pub open spec fn stamp_text(&self) -> Seq<u8> {
        self.date_text() + seq![SPACE] + self.clock_text() + seq![SPACE] + weekday_name(
            self.weekday,
        )
    }

    /// The line that heads a month's document, as in `# 2024-03`.
    pub open spec fn month_title_text(&self) -> Seq<u8> {
        seq![HASH, SPACE] + signed_decimal(self.year as int) + seq![MINUS] + padded(
            self.month as nat,
            2,
        )
    }

    /// The line that opens a day's section, as in `## 2024-03-15`.
    pub open spec fn day_marker_text(&self) -> Seq<u8> {
        seq![HASH, HASH, SPACE] + self.date_text()
    }

    /// Where the month's document lies in the store, as in `2024/03.md`.
    pub open spec fn document_path_text(&self) -> Seq<u8> {
        signed_decimal(self.year as int) + seq![SLASH] + padded(self.month as nat, 2) + ".md".spec_bytes()
    }

    /// Makes a reading of the given fields, where each lies in its range.
    pub fn new(
        year: i32,
        month: u32,
        day: u32,
        hour: u32,
        minute: u32,
        second: u32,
        weekday: u32,
    ) -> (made: Option<EntryTime>)
        ensures
            ({
                let asked = EntryTime { year, month, day, hour, minute, second, weekday };
                made == (if asked.well_formed() {
                    Some(asked)
                } else {
                    None
                })
            }),
    {
        if 1 <= month && month <= 12 && 1 <= day && day <= 31 && hour < 24 && minute < 60 && second
            < 60 && weekday < 7 {
            Some(EntryTime { year, month, day, hour, minute, second, weekday })
        } else {
            None
        }
    }

    /// Reads the moment `secs` seconds after the Unix epoch on the journal's
    /// clock.
    pub fn from_timestamp(secs: i64) -> (reading: Option<EntryTime>)
        ensures
            reading == local_time(secs as int, JOURNAL_OFFSET as int),
            reading matches Some(time) ==> time.well_formed(),
    {
        read_local_time(secs, JOURNAL_OFFSET)
    }

    /// Appends the date to `out`.
    fn push_date(&self, out: &mut Vec<u8>)
        ensures
            final(out)@ == old(out)@ + self.date_text(),
    {
        let ghost before = out@;
        push_long_year(out, self.year);
        out.push(MINUS);
        push_padded(out, self.month as u64, 2);
        out.push(MINUS);
        push_padded(out, self.day as u64, 2);
        assert(out@ =~= before + self.date_text());
    }

    /// The date, as in `2024-03-15`.
    pub fn date(&self) -> (text: Vec<u8>)
        ensures
            text@ == self.date_text(),
    {
        let mut text: Vec<u8> = Vec::new();
        self.push_date(&mut text);
        assert(text@ =~= self.date_text());
        text
    }

    /// The time stamp of an entry, as in `2024-03-15 18:00:00 Friday`.
    pub fn stamp(&self) -> (text: Vec<u8>)
        ensures
            text@ == self.stamp_text(),
    {
        let mut text: Vec<u8> = Vec::new();
        self.push_date(&mut text);
        text.push(SPACE);
        push_padded(&mut text, self.hour as u64, 2);
        text.push(COLON);
        push_padded(&mut text, self.minute as u64, 2);
        text.push(COLON);
        push_padded(&mut text, self.second as u64, 2);
        text.push(SPACE);
        let name = weekday_bytes(self.weekday);
        text.extend_from_slice(name);
        assert(text@ =~= self.stamp_text());
        text
    }

    /// The line that heads the month's document, as in `# 2024-03`.
    pub fn month_title(&self) -> (text: Vec<u8>)
        ensures
            text@ == self.month_title_text(),
    {
        let mut text: Vec<u8> = Vec::new();
        text.push(HASH);
        text.push(SPACE);
        push_signed(&mut text, self.year as i64);
        text.push(MINUS);
        push_padded(&mut text, self.month as u64, 2);
        assert(text@ =~= self.month_title_text());
        text
    }

    /// The line that opens the day's section, as in `## 2024-03-15`.
    pub fn day_marker(&self) -> (text: Vec<u8>)
        ensures
            text@ == self.day_marker_text(),
    {
        let mut text: Vec<u8> = Vec::new();
        text.push(HASH);
        text.push(HASH);
        text.push(SPACE);
        self.push_date(&mut text);
        assert(text@ =~= self.day_marker_text());
        text
    }

    /// Where the month's document lies in the store, as in `2024/03.md`.
    pub fn document_path(&self) -> (text: Vec<u8>)
        ensures
            text@ == self.document_path_text(),
    {
        let mut text: Vec<u8> = Vec::new();
        push_signed(&mut text, self.year as i64);
        text.push(SLASH);
        push_padded(&mut text, self.month as u64, 2);
        text.extend_from_slice(".md".as_bytes());
        assert(text@ =~= self.document_path_text());
        text
    }
}

/// The name of a day holds letters only, and so no line feed.
pub proof fn lemma_weekday_name_single_lined(weekday: u32)
    ensures
        single_lined(weekday_name(weekday)),
{
    reveal_strlit("Monday");
    reveal_strlit("Tuesday");
    reveal_strlit("Wednesday");
    reveal_strlit("Thursday");
    reveal_strlit("Friday");
    reveal_strlit("Saturday");
    reveal_strlit("Sunday");
    is_ascii_spec_bytes("Monday");
    is_ascii_spec_bytes("Tuesday");
    is_ascii_spec_bytes("Wednesday");
    is_ascii_spec_bytes("Thursday");
    is_ascii_spec_bytes("Friday");
    is_ascii_spec_bytes("Saturday");
    is_ascii_spec_bytes("Sunday");
}

/// A date holds digits and signs only, and so no line feed.
pub proof fn lemma_date_single_lined(time: EntryTime)
    ensures
        single_lined(time.date_text()),
        time.date_text().len() > 0,
{
    if time.year < 0 {
        lemma_padded_digits((-time.year) as nat, 4);
    } else {
        lemma_padded_digits(time.year as nat, 4);
    }
    lemma_padded_digits(time.month as nat, 2);
    lemma_padded_digits(time.day as nat, 2);
}

/// A day marker is one line that begins with a hash sign.
pub proof fn lemma_day_marker_shape(time: EntryTime)
    ensures
        single_lined(time.day_marker_text()),
        time.day_marker_text().len() > 3,
        time.day_marker_text()[0] == HASH,
{
    lemma_date_single_lined(time);
}

/// Two years are written alike only where they are the same year.
pub proof fn lemma_long_year_tells_years_apart(a: int, b: int)
    requires
        long_year(a) == long_year(b),
    ensures
        a == b,
{
    let size_a = if a < 0 {
        (-a) as nat
    } else {
        a as nat
    };
    let size_b = if b < 0 {
        (-b) as nat
    } else {
        b as nat
    };
    lemma_padded_digits(size_a, 4);
    lemma_padded_digits(size_b, 4);
    lemma_padded_value(size_a, 4);
    lemma_padded_value(size_b, 4);
    let digits_a = padded(size_a, 4);
    let digits_b = padded(size_b, 4);
    assert(digits_a[0] != MINUS && digits_a[0] != PLUS);
    assert(digits_b[0] != MINUS && digits_b[0] != PLUS);
    let first = long_year(a)[0];
    assert(a < 0 <==> first == MINUS);
    assert(b < 0 <==> first == MINUS);
    assert(a > 9999 <==> first == PLUS);
    assert(b > 9999 <==> first == PLUS);
    if a < 0 || a > 9999 {
        assert(long_year(a).subrange(1, long_year(a).len() as int) =~= digits_a);
        assert(long_year(b).subrange(1, long_year(b).len() as int) =~= digits_b);
    }
    assert(digits_a == digits_b);
}

/// Two days are written alike only where they are the same day: the date
/// tells year, month and day.
pub proof fn lemma_date_tells_days_apart(a: EntryTime, b: EntryTime)
    requires
        a.well_formed(),
        b.well_formed(),
        a.date_text() == b.date_text(),
    ensures
        a.same_day(b),
{
    lemma_padded_two_wide(a.month as nat);
    lemma_padded_two_wide(a.day as nat);
    lemma_padded_two_wide(b.month as nat);
    lemma_padded_two_wide(b.day as nat);
    lemma_padded_value(a.month as nat, 2);
    lemma_padded_value(a.day as nat, 2);
    lemma_padded_value(b.month as nat, 2);
    lemma_padded_value(b.day as nat, 2);
    let text = a.date_text();
    let len = text.len() as int;
    assert(text.subrange(0, len - 6) =~= long_year(a.year as int));
    assert(text.subrange(len - 5, len - 3) =~= padded(a.month as nat, 2));
    assert(text.subrange(len - 2, len) =~= padded(a.day as nat, 2));
    assert(text.subrange(0, len - 6) =~= long_year(b.year as int));
    assert(text.subrange(len - 5, len - 3) =~= padded(b.month as nat, 2));
    assert(text.subrange(len - 2, len) =~= padded(b.day as nat, 2));
    lemma_long_year_tells_years_apart(a.year as int, b.year as int);
}

/// The marker of a day is the marker of no other day.
pub proof fn lemma_day_marker_tells_days_apart(a: EntryTime, b: EntryTime)
    requires
        a.well_formed(),
        b.well_formed(),
    ensures
        a.day_marker_text() == b.day_marker_text() <==> a.same_day(b),
{
    if a.day_marker_text() == b.day_marker_text() {
        let marker = a.day_marker_text();
        assert(marker.subrange(3, marker.len() as int) =~= a.date_text());
        assert(marker.subrange(3, marker.len() as int) =~= b.date_text());
        lemma_date_tells_days_apart(a, b);
    }
}

/// A month title is one line that begins with a hash sign.
pub proof fn lemma_month_title_shape(time: EntryTime)
    ensures
        single_lined(time.month_title_text()),
        time.month_title_text().len() > 2,
        time.month_title_text()[0] == HASH,
        time.month_title_text()[1] == SPACE,
{
    if time.year < 0 {
        lemma_decimal_digits((-time.year) as nat);
    } else {
        lemma_decimal_digits(time.year as nat);
    }
    lemma_padded_digits(time.month as nat, 2);
}

/// A time stamp holds no line feed.
pub proof fn lemma_stamp_single_lined(time: EntryTime)
    ensures
        single_lined(time.stamp_text()),
{
    lemma_date_single_lined(time);
    lemma_padded_digits(time.hour as nat, 2);
    lemma_padded_digits(time.minute as nat, 2);
    lemma_padded_digits(time.second as nat, 2);
    lemma_weekday_name_single_lined(time.weekday);
}

/// The size of a year, whichever side of zero it lies on.
fn year_size(year: i32) -> (size: u64)
    ensures
        size == (if year < 0 {
            -year
        } else {
            year as int
        }),
{
    if year < 0 {
        let wide: i64 = -(year as i64);
        wide as u64
    } else {
        year as u64
    }
}

/// Appends a year in at least four digits.
fn push_long_year(out: &mut Vec<u8>, year: i32)
    ensures
        final(out)@ == old(out)@ + long_year(year as int),
{
    let ghost before = out@;
    if year < 0 {
        out.push(MINUS);
    } else if year > 9999 {
        out.push(PLUS);
    }
    push_padded(out, year_size(year), 4);
    assert(out@ =~= before + long_year(year as int));
}

/// The name of the day that lies `weekday` days after a Monday.
pub fn weekday_bytes(weekday: u32) -> (name: &'static [u8])
    ensures
        name@ == weekday_name(weekday),
{
    if weekday == 0 {
        "Monday".as_bytes()
    } else if weekday == 1 {
        "Tuesday".as_bytes()
    } else if weekday == 2 {
        "Wednesday".as_bytes()
    } else if weekday == 3 {
        "Thursday".as_bytes()
    } else if weekday == 4 {
        "Friday".as_bytes()
    } else if weekday == 5 {
        "Saturday".as_bytes()
    } else {
        "Sunday".as_bytes()
    }
}

} // verus!

//! Calendar timestamps, and the texts that state them.

use crate::error::{ErrorView, ParseError};
use crate::text::{
    digit_char, digit_of, digit_value, four_digits, is_digit, string_of, two_digits,
};
use chrono::{Datelike, Timelike};
use vstd::prelude::*;

verus! {

/// A calendar day with a time of day and an offset from UTC.
#[derive(Debug, Clone, Copy, PartialEq, Eq, Structural)]
pub struct Timestamp {
    year: u16,
    month: u8,
    day: u8,
    second_of_day: u32,
    nanosecond: u32,
    offset_seconds: i32,
}

/// A `Timestamp` as a mathematical value.
pub struct TimestampView {
    /// The year of the common era.
    pub year: int,
    /// The month, counted from 1.
    pub month: int,
    /// The day of the month, counted from 1.
    pub day: int,
    /// The seconds since local midnight.
    pub second_of_day: int,
    /// The nanoseconds since the last full second; a leap second counts on
    /// beyond one thousand million.
    pub nanosecond: int,
    /// The seconds by which local time is ahead of UTC.
    pub offset_seconds: int,
}

/// The Gregorian rule for leap years.
pub open spec fn is_leap_year(year: int) -> bool {
    year % 4 == 0 && (year % 100 != 0 || year % 400 == 0)
}

/// The number of days of a month.
pub open spec fn days_in_month(year: int, month: int) -> int {
    if month == 2 {
        if is_leap_year(year) {
            29
        } else {
            28
        }
    } else if month == 4 || month == 6 || month == 9 || month == 11 {
        30
    } else {
        31
    }
}

/// The day exists in the Gregorian calendar.
pub open spec fn is_calendar_day(year: int, month: int, day: int) -> bool {
    1 <= month <= 12 && 1 <= day <= days_in_month(year, month)
}

impl TimestampView {
    /// The value is one that a `Timestamp` can hold: a day that exists, in a
    /// year of four digits, with a time within the day and an offset of less
    /// than a day.
    pub open spec fn wf(self) -> bool {
        &&& 0 <= self.year <= 9999
        &&& is_calendar_day(self.year, self.month, self.day)
        &&& 0 <= self.second_of_day < 86_400
        &&& 0 <= self.nanosecond < 2_000_000_000
        &&& -86_400 < self.offset_seconds < 86_400
    }

    /// The same day at midnight UTC.
    pub open spec fn at_midnight(self) -> TimestampView {
        TimestampView {
            year: self.year,
            month: self.month,
            day: self.day,
            second_of_day: 0,
            nanosecond: 0,
            offset_seconds: 0,
        }
    }

    /// The day as `YYYY-MM-DD`.
    pub open spec fn iso_day(self) -> Seq<char> {
        four_digits(self.year as nat) + seq!['-'] + two_digits(self.month as nat) + seq!['-']
            + two_digits(self.day as nat)
    }

    /// The day as `DD.MM.YYYY`.
    pub open spec fn dotted_day(self) -> Seq<char> {
        two_digits(self.day as nat) + seq!['.'] + two_digits(self.month as nat) + seq!['.']
            + four_digits(self.year as nat)
    }

    /// The day as `YYMMDD`.
    pub open spec fn compact_day(self) -> Seq<char> {
        two_digits((self.year % 100) as nat) + two_digits(self.month as nat) + two_digits(
            self.day as nat,
        )
    }
}

/// Midnight UTC on a day.
pub open spec fn midnight(year: int, month: int, day: int) -> TimestampView {
    TimestampView { year, month, day, second_of_day: 0, nanosecond: 0, offset_seconds: 0 }
}

/// The value that six fields of a reading make.
pub open spec fn moment(fields: (i32, u32, u32, u32, u32, i32)) -> TimestampView {
    TimestampView {
        year: fields.0 as int,
        month: fields.1 as int,
        day: fields.2 as int,
        second_of_day: fields.3 as int,
        nanosecond: fields.4 as int,
        offset_seconds: fields.5 as int,
    }
}

/// The fields of midnight UTC on a day.
pub open spec fn midnight_fields(day: (i32, u32, u32)) -> (i32, u32, u32, u32, u32, i32) {
    (day.0, day.1, day.2, 0u32, 0u32, 0i32)
}

impl View for Timestamp {
    type V = TimestampView;

    closed spec fn view(&self) -> TimestampView {
        TimestampView {
            year: self.year as int,
            month: self.month as int,
            day: self.day as int,
            second_of_day: self.second_of_day as int,
            nanosecond: self.nanosecond as int,
            offset_seconds: self.offset_seconds as int,
        }
    }
}

/// The number of days of a month.
pub fn month_length(year: i32, month: u32) -> (n: u32)
    ensures
        n == days_in_month(year as int, month as int),
{
    if month == 2 {
        if year % 4 == 0 && (year % 100 != 0 || year % 400 == 0) {
            29
        } else {
            28
        }
    } else if month == 4 || month == 6 || month == 9 || month == 11 {
        30
    } else {
        31
    }
}

impl Timestamp {
    #[verifier::type_invariant]
    spec fn well_formed(self) -> bool {
        self@.wf()
    }

    /// The timestamp with the given fields, if they make one.
    pub fn new(
        year: i32,
        month: u32,
        day: u32,
        second_of_day: u32,
        nanosecond: u32,
        offset_seconds: i32,
    ) -> (r: Option<Timestamp>)
        ensures
            r is Some <==> moment(
                (year, month, day, second_of_day, nanosecond, offset_seconds),
            ).wf(),
            r matches Some(t) ==> t@ == moment(
                (year, month, day, second_of_day, nanosecond, offset_seconds),
            ),
    {
        if 0 <= year && year <= 9999 && 1 <= month && month <= 12 && 1 <= day && day
            <= month_length(year, month) && second_of_day < 86_400 && nanosecond < 2_000_000_000
            && -86_400 < offset_seconds && offset_seconds < 86_400 {
            Some(
                Timestamp {
                    year: year as u16,
                    month: month as u8,
                    day: day as u8,
                    second_of_day,
                    nanosecond,
                    offset_seconds,
                },
            )
        } else {
            None
        }
    }

    /// Midnight UTC on the given day, if the day exists.
    pub fn from_ymd(year: i32, month: u32, day: u32) -> (r: Option<Timestamp>)
        ensures
            r is Some <==> moment(midnight_fields((year, month, day))).wf(),
            r matches Some(t) ==> t@ == moment(midnight_fields((year, month, day))),
    {
        Timestamp::new(year, month, day, 0, 0, 0)
    }

    /// The year.
    pub fn year(&self) -> (r: i32)
        ensures
            r == self@.year,
            self@.wf(),
    {
        proof {
            use_type_invariant(self);
        }
        self.year as i32
    }

    /// The month, counted from 1.
    pub fn month(&self) -> (r: u32)
        ensures
            r == self@.month,
    {
        self.month as u32
    }

    /// The day of the month, counted from 1.
    pub fn day(&self) -> (r: u32)
        ensures
            r == self@.day,
    {
        self.day as u32
    }

    /// The seconds since local midnight.
    pub fn second_of_day(&self) -> (r: u32)
        ensures
            r == self@.second_of_day,
    {
        self.second_of_day
    }

    /// The nanoseconds since the last full second.
    pub fn nanosecond(&self) -> (r: u32)
        ensures
            r == self@.nanosecond,
    {
        self.nanosecond
    }

    /// The seconds by which local time is ahead of UTC.
    pub fn offset_seconds(&self) -> (r: i32)
        ensures
            r == self@.offset_seconds,
    {
        self.offset_seconds
    }
}

/// What `chrono::DateTime::parse_from_rfc3339` reads from a text, if it reads
/// one: year, month, day, seconds since midnight, nanoseconds and the offset
/// from UTC in seconds, all in local time.
pub uninterp spec fn rfc3339_reading(text: Seq<char>) -> Option<(i32, u32, u32, u32, u32, i32)>;

/// What `chrono::NaiveDate::parse_from_str` reads from a text by a pattern,
/// if it reads one: year, month and day.
pub uninterp spec fn day_reading(text: Seq<char>, pattern: Seq<char>) -> Option<(i32, u32, u32)>;

/// The number that the digits at two places of a text denote.
pub open spec fn pair_value(text: Seq<char>, at: int) -> int {
    (digit_value(text[at]) * 10 + digit_value(text[at + 1])) as int
}

/// The day that a text of the shape `YYYY-MM-DD` states, where its ten
/// characters are digits and hyphens in their places and the day exists.
pub open spec fn iso_day_of(text: Seq<char>) -> Option<(i32, u32, u32)> {
    if text.len() == 10 && is_digit(text[0]) && is_digit(text[1]) && is_digit(text[2])
        && is_digit(text[3]) && text[4] == '-' && is_digit(text[5]) && is_digit(text[6])
        && text[7] == '-' && is_digit(text[8]) && is_digit(text[9]) && is_calendar_day(
        pair_value(text, 0) * 100 + pair_value(text, 2),
        pair_value(text, 5),
        pair_value(text, 8),
    ) {
        Some(
            (
                (pair_value(text, 0) * 100 + pair_value(text, 2)) as i32,
                pair_value(text, 5) as u32,
                pair_value(text, 8) as u32,
            ),
        )
    } else {
        None
    }
}

/// What is read of a text as RFC 3339: nothing of a day `YYYY-MM-DD`,
/// which is shorter than a date with a time; of any other text,
/// `otherwise`.
pub open spec fn rfc3339_read(
    text: Seq<char>,
    otherwise: Option<(i32, u32, u32, u32, u32, i32)>,
) -> Option<(i32, u32, u32, u32, u32, i32)> {
    if iso_day_of(text) is Some {
        None
    } else {
        otherwise
    }
}

/// What is read of a text by a pattern: of a day `YYYY-MM-DD` that day by
/// `%Y-%m-%d`, and nothing by `%d.%m.%Y`, which wants a full stop behind
/// two digits; of any other text or by any other pattern, `otherwise`.
pub open spec fn day_read(
    text: Seq<char>,
    pattern: Seq<char>,
    otherwise: Option<(i32, u32, u32)>,
) -> Option<(i32, u32, u32)> {
    if iso_day_of(text) is Some && pattern == "%Y-%m-%d"@ {
        iso_day_of(text)
    } else if iso_day_of(text) is Some && pattern == "%d.%m.%Y"@ {
        None
    } else {
        otherwise
    }
}

/// What is read of a text as RFC 3339.
pub open spec fn moment_of(text: Seq<char>) -> Option<(i32, u32, u32, u32, u32, i32)> {
    rfc3339_read(text, rfc3339_reading(text))
}

/// What is read of a text by a pattern.
pub open spec fn day_of(text: Seq<char>, pattern: Seq<char>) -> Option<(i32, u32, u32)> {
    day_read(text, pattern, day_reading(text, pattern))
}

/// `chrono::DateTime::parse_from_rfc3339`, its result taken apart into
/// fields. It reads nothing from a text of fewer than nineteen bytes, so
/// nothing from ten characters that state a day as `YYYY-MM-DD`; of any
/// other text nothing is claimed but that the result depends on the text
/// alone.
#[verifier::external_body]
pub(crate) fn read_rfc3339(text: &str) -> (r: Option<(i32, u32, u32, u32, u32, i32)>)
    ensures
        r == rfc3339_read(text@, rfc3339_reading(text@)),
{
    chrono::DateTime::parse_from_rfc3339(text).ok().map(
        |t|
            (
                t.year(),
                t.month(),
                t.day(),
                t.num_seconds_from_midnight(),
                t.nanosecond(),
                t.offset().local_minus_utc(),
            ),
    )
}

/// `chrono::NaiveDate::parse_from_str`, its result taken apart into fields.
/// Of ten characters that state a day as `YYYY-MM-DD`, a day that exists:
/// by `%Y-%m-%d` it reads that day (up to four digits of a year, a hyphen,
/// up to two digits of a month, a hyphen, up to two digits of a day, and
/// the text ends); by `%d.%m.%Y` it reads nothing (behind the two digits
/// that it takes for the day stands a digit, no full stop). Of any other
/// text or pattern nothing is claimed but that the result depends on the
/// two alone.
#[verifier::external_body]
pub(crate) fn read_day(text: &str, pattern: &str) -> (r: Option<(i32, u32, u32)>)
    ensures
        r == day_read(text@, pattern@, day_reading(text@, pattern@)),
{
    chrono::NaiveDate::parse_from_str(text, pattern).ok().map(|d| (d.year(), d.month(), d.day()))
}

/// Adds the two-digit numeral of `n`.
fn push_two_digits(out: &mut Vec<char>, n: u8)
    requires
        n < 100,
    ensures
        final(out)@ == old(out)@ + two_digits(n as nat),
{
    out.push(digit_of(n / 10));
    out.push(digit_of(n % 10));
    assert(out@ =~= old(out)@ + two_digits(n as nat));
}

/// The reading that counts: the first of the four that was made. A day
/// without a time stands for its midnight UTC.
pub open spec fn first_reading(
    rfc3339: Option<(i32, u32, u32, u32, u32, i32)>,
    dotted: Option<(i32, u32, u32)>,
    iso: Option<(i32, u32, u32)>,
    iso_time: Option<(i32, u32, u32)>,
) -> Option<(i32, u32, u32, u32, u32, i32)> {
    if rfc3339 is Some {
        rfc3339
    } else if dotted is Some {
        Some(midnight_fields(dotted->0))
    } else if iso is Some {
        Some(midnight_fields(iso->0))
    } else if iso_time is Some {
        Some(midnight_fields(iso_time->0))
    } else {
        None
    }
}

/// The timestamp that four readings of one text give: that of the first
/// reading made, if a `Timestamp` can hold it.
pub open spec fn date_of_readings(
    rfc3339: Option<(i32, u32, u32, u32, u32, i32)>,
    dotted: Option<(i32, u32, u32)>,
    iso: Option<(i32, u32, u32)>,
    iso_time: Option<(i32, u32, u32)>,
) -> Result<TimestampView, ErrorView> {
    match first_reading(rfc3339, dotted, iso, iso_time) {
        Some(fields) => if moment(fields).wf() {
            Ok(moment(fields))
        } else {
            Err(ErrorView::InvalidFormat("Invalid date"@))
        },
        None => Err(ErrorView::InvalidFormat("Invalid date"@)),
    }
}

/// The timestamp that a text states. The text is read as RFC 3339, then as
/// `DD.MM.YYYY`, as `YYYY-MM-DD` and as `YYYY-MM-DDTHH:MM:SS`.
pub open spec fn date_of_text(text: Seq<char>) -> Result<TimestampView, ErrorView> {
    date_of_readings(
        moment_of(text),
        day_of(text, "%d.%m.%Y"@),
        day_of(text, "%Y-%m-%d"@),
        day_of(text, "%Y-%m-%dT%H:%M:%S"@),
    )
}

/// The day of a timestamp is read back from its text `YYYY-MM-DD`, as
/// midnight UTC on that day.
pub open spec fn reads_back(t: TimestampView) -> bool {
    date_of_text(t.iso_day()) == Ok::<TimestampView, ErrorView>(t.at_midnight())
}

/// The timestamp that four readings of one text give.
pub fn date_from_readings(
    rfc3339: Option<(i32, u32, u32, u32, u32, i32)>,
    dotted: Option<(i32, u32, u32)>,
    iso: Option<(i32, u32, u32)>,
    iso_time: Option<(i32, u32, u32)>,
) -> (r: Result<Timestamp, ParseError>)
    ensures
        crate::error::outcome(r) == date_of_readings(rfc3339, dotted, iso, iso_time),
{
    let fields: Option<(i32, u32, u32, u32, u32, i32)> = match rfc3339 {
        Some(f) => Some(f),
        None => {
            let day = match dotted {
                Some(d) => Some(d),
                None => match iso {
                    Some(d) => Some(d),
                    None => iso_time,
                },
            };
            match day {
                Some(d) => Some((d.0, d.1, d.2, 0u32, 0u32, 0i32)),
                None => None,
            }
        },
    };
    assert(fields == first_reading(rfc3339, dotted, iso, iso_time));
    let made = match fields {
        Some(f) => Timestamp::new(f.0, f.1, f.2, f.3, f.4, f.5),
        None => None,
    };
    match made {
        Some(t) => Ok(t),
        None => Err(ParseError::InvalidFormat("Invalid date".to_owned())),
    }
}

/// The timestamp that `text` states.
pub fn parse_date(text: &str) -> (r: Result<Timestamp, ParseError>)
    ensures
        crate::error::outcome(r) == date_of_text(text@),
{
    let rfc3339 = read_rfc3339(text);
    let dotted = read_day(text, "%d.%m.%Y");
    let iso = read_day(text, "%Y-%m-%d");
    let iso_time = read_day(text, "%Y-%m-%dT%H:%M:%S");
    date_from_readings(rfc3339, dotted, iso, iso_time)
}

impl Timestamp {
    /// The day as `YYYY-MM-DD`.
    pub fn iso_date(&self) -> (r: String)
        ensures
            r@ == self@.iso_day(),
    {
        proof {
            use_type_invariant(self);
        }
        let mut out: Vec<char> = Vec::new();
        push_two_digits(&mut out, (self.year / 100) as u8);
        push_two_digits(&mut out, (self.year % 100) as u8);
        out.push('-');
        push_two_digits(&mut out, self.month);
        out.push('-');
        push_two_digits(&mut out, self.day);
        assert(out@ =~= self@.iso_day());
        string_of(out.as_slice())
    }

    /// The day as `DD.MM.YYYY`.
    pub fn dotted_date(&self) -> (r: String)
        ensures
            r@ == self@.dotted_day(),
    {
        proof {
            use_type_invariant(self);
        }
        let mut out: Vec<char> = Vec::new();
        push_two_digits(&mut out, self.day);
        out.push('.');
        push_two_digits(&mut out, self.month);
        out.push('.');
        push_two_digits(&mut out, (self.year / 100) as u8);
        push_two_digits(&mut out, (self.year % 100) as u8);
        assert(out@ =~= self@.dotted_day());
        string_of(out.as_slice())
    }

    /// The day as `YYMMDD`.
    pub fn compact_date(&self) -> (r: String)
        ensures
            r@ == self@.compact_day(),
    {
        proof {
            use_type_invariant(self);
        }
        let mut out: Vec<char> = Vec::new();
        push_two_digits(&mut out, (self.year % 100) as u8);
        push_two_digits(&mut out, self.month);
        push_two_digits(&mut out, self.day);
        assert(out@ =~= self@.compact_day());
        string_of(out.as_slice())
    }
}

/// The text `YYYY-MM-DD` of a day states that day.
pub proof fn lemma_iso_day_of(t: TimestampView)
    requires
        t.wf(),
    ensures
        iso_day_of(t.iso_day()) == Some((t.year as i32, t.month as u32, t.day as u32)),
{
    let text = t.iso_day();
    let y = t.year as nat;
    let m = t.month as nat;
    let d = t.day as nat;
    assert(text[0] == digit_char(y / 100 / 10) && text[1] == digit_char(y / 100 % 10));
    assert(text[2] == digit_char(y % 100 / 10) && text[3] == digit_char(y % 100 % 10));
    assert(text[5] == digit_char(m / 10) && text[6] == digit_char(m % 10));
    assert(text[8] == digit_char(d / 10) && text[9] == digit_char(d % 10));
    assert(pair_value(text, 0) == y / 100);
    assert(pair_value(text, 2) == y % 100);
    assert(pair_value(text, 5) == m);
    assert(pair_value(text, 8) == d);
}

/// The day of a timestamp is read back from its text `YYYY-MM-DD`, as
/// midnight UTC on that day.
pub proof fn lemma_day_reads_back(t: TimestampView)
    requires
        t.wf(),
    ensures
        reads_back(t),
{
    lemma_iso_day_of(t);
    reveal_strlit("%Y-%m-%d");
    reveal_strlit("%d.%m.%Y");
    assert("%Y-%m-%d"@[1] != "%d.%m.%Y"@[1]);
    let fields = midnight_fields((t.year as i32, t.month as u32, t.day as u32));
    assert(moment(fields) == t.at_midnight());
}

} // verus!

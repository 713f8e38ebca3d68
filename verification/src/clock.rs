//! Civil dates and times of day, as the plain numbers by which they are
//! compared, and the readings of their textual forms.

use chrono::{Datelike, NaiveDate, NaiveTime, Timelike};
use chrono::format::ParseErrorKind;
use vstd::prelude::*;

verus! {

/// Why a text could not be read as a date or a time of day.
#[derive(Clone, Copy, PartialEq, Eq, Debug)]
pub enum ParseFailure {
    /// A field is outside the range that is permitted for it.
    OutOfRange,
    /// No date or time has the fields that were given.
    Impossible,
    /// The fields that were given do not determine a date or time.
    NotEnough,
    /// The text holds a character that cannot stand where it does.
    Invalid,
    /// The text ends too early.
    TooShort,
    /// Text is left over after the last field.
    TooLong,
    /// The form that was asked for is not supported.
    BadFormat,
    /// A failure of no kind listed here.
    Unclassified,
}

/// A day of the week.
#[derive(Clone, Copy, PartialEq, Eq, Debug)]
pub enum Weekday {
    Mon,
    Tue,
    Wed,
    Thu,
    Fri,
    Sat,
    Sun,
}

impl Weekday {
    /// The day that is `n` days after a Monday, for `n` from 0 to 6.
    pub open spec fn nth(n: int) -> Weekday {
        if n == 0 {
            Weekday::Mon
        } else if n == 1 {
            Weekday::Tue
        } else if n == 2 {
            Weekday::Wed
        } else if n == 3 {
            Weekday::Thu
        } else if n == 4 {
            Weekday::Fri
        } else if n == 5 {
            Weekday::Sat
        } else {
            Weekday::Sun
        }
    }

    /// The day that a one-letter code stands for: `M T W R F S U`, from
    /// Monday to Sunday.
    pub open spec fn of_letter(c: char) -> Option<Weekday> {
        if c == 'M' {
            Some(Weekday::Mon)
        } else if c == 'T' {
            Some(Weekday::Tue)
        } else if c == 'W' {
            Some(Weekday::Wed)
        } else if c == 'R' {
            Some(Weekday::Thu)
        } else if c == 'F' {
            Some(Weekday::Fri)
        } else if c == 'S' {
            Some(Weekday::Sat)
        } else if c == 'U' {
            Some(Weekday::Sun)
        } else {
            None
        }
    }

    /// The day that `code` stands for: a code is one letter, no more.
    pub open spec fn of_code(code: Seq<char>) -> Option<Weekday> {
        if code.len() == 1 {
            Weekday::of_letter(code[0])
        } else {
            None
        }
    }

    /// Reads a weekday code.
    pub fn from_code(code: &str) -> (r: Option<Weekday>)
        ensures
            r == Weekday::of_code(code@),
    {
        if code.unicode_len() != 1 {
            return None;
        }
        let c: char = code.get_char(0);
        if c == 'M' {
            Some(Weekday::Mon)
        } else if c == 'T' {
            Some(Weekday::Tue)
        } else if c == 'W' {
            Some(Weekday::Wed)
        } else if c == 'R' {
            Some(Weekday::Thu)
        } else if c == 'F' {
            Some(Weekday::Fri)
        } else if c == 'S' {
            Some(Weekday::Sat)
        } else if c == 'U' {
            Some(Weekday::Sun)
        } else {
            None
        }
    }

    /// Whether two days are the same day.
    pub fn same(self, other: Weekday) -> (r: bool)
        ensures
            r == (self == other),
    {
        match (self, other) {
            (Weekday::Mon, Weekday::Mon) => true,
            (Weekday::Tue, Weekday::Tue) => true,
            (Weekday::Wed, Weekday::Wed) => true,
            (Weekday::Thu, Weekday::Thu) => true,
            (Weekday::Fri, Weekday::Fri) => true,
            (Weekday::Sat, Weekday::Sat) => true,
            (Weekday::Sun, Weekday::Sun) => true,
            _ => false,
        }
    }
}

/// A civil date, held as its day number in the proleptic Gregorian calendar:
/// day 1 is 1 January of the year 1, a Monday.
#[derive(Clone, Copy, PartialEq, Eq, Debug)]
pub struct Date {
    pub days: i32,
}

/// What chrono reads `text` as, where it reads it as a date: the date's day
/// number.
pub uninterp spec fn date_reading(text: Seq<char>) -> Result<i32, ParseFailure>;

/// The month's short name and the day of the month, two digits wide, of the
/// date with the given day number, as chrono writes them; `None` where chrono
/// has no date of that number.
pub uninterp spec fn month_day_text(days: i32) -> Option<Seq<char>>;

/// Reads a date with chrono's `FromStr` for `NaiveDate`, and takes the date
/// by `Datelike::num_days_from_ce`. The failure is the kind that chrono's
/// error reports. Nothing is claimed of the reading but that it depends on
/// the text alone.
#[verifier::external_body]
fn read_date(text: &str) -> (r: Result<i32, ParseFailure>)
    ensures
        r == date_reading(text@),
{
    match text.parse::<NaiveDate>() {
        Ok(date) => Ok(date.num_days_from_ce()),
        Err(e) => Err(match e.kind() {
            ParseErrorKind::OutOfRange => ParseFailure::OutOfRange,
            ParseErrorKind::Impossible => ParseFailure::Impossible,
            ParseErrorKind::NotEnough => ParseFailure::NotEnough,
            ParseErrorKind::Invalid => ParseFailure::Invalid,
            ParseErrorKind::TooShort => ParseFailure::TooShort,
            ParseErrorKind::TooLong => ParseFailure::TooLong,
            ParseErrorKind::BadFormat => ParseFailure::BadFormat,
            _ => ParseFailure::Unclassified,
        }),
    }
}

/// Writes a date as chrono's `NaiveDate::format` does for `%b %d`, from the
/// date that `NaiveDate::from_num_days_from_ce_opt` makes of the day number.
/// Nothing is claimed of the text but that it depends on the number alone.
#[verifier::external_body]
pub(crate) fn write_month_day(days: i32) -> (r: Option<String>)
    ensures
        r.deep_view() == month_day_text(days),
{
    match NaiveDate::from_num_days_from_ce_opt(days) {
        Some(date) => Some(date.format("%b %d").to_string()),
        None => None,
    }
}

impl Date {
    /// What `text` reads as.
    pub open spec fn reading(text: Seq<char>) -> Result<Date, ParseFailure> {
        match date_reading(text) {
            Ok(days) => Ok(Date { days }),
            Err(failure) => Err(failure),
        }
    }

    /// Reads a date from its textual form, such as `2024-06-03`.
    pub fn parse(text: &str) -> (r: Result<Date, ParseFailure>)
        ensures
            r == Date::reading(text@),
    {
        match read_date(text) {
            Ok(days) => Ok(Date { days }),
            Err(failure) => Err(failure),
        }
    }

    /// The day of the week on which the date falls.
    pub open spec fn weekday_spec(self) -> Weekday {
        Weekday::nth((self.days - 1) % 7)
    }

    /// The day of the week on which the date falls.
    #[verifier::when_used_as_spec(weekday_spec)]
    pub fn weekday(self) -> (r: Weekday)
        ensures
            r == self.weekday_spec(),
    {
        // 2147483652 is a multiple of 7 plus 6, and keeps the sum positive.
        let shifted: i64 = self.days as i64 + 2147483652;
        let n: i64 = shifted % 7;
        if n == 0 {
            Weekday::Mon
        } else if n == 1 {
            Weekday::Tue
        } else if n == 2 {
            Weekday::Wed
        } else if n == 3 {
            Weekday::Thu
        } else if n == 4 {
            Weekday::Fri
        } else if n == 5 {
            Weekday::Sat
        } else {
            Weekday::Sun
        }
    }

    /// The date of the day before, where its number can be held.
    pub fn pred(self) -> (r: Option<Date>)
        ensures
            r == if self.days > i32::MIN {
                Some(Date { days: (self.days - 1) as i32 })
            } else {
                None
            },
    {
        if self.days > i32::MIN {
            Some(Date { days: self.days - 1 })
        } else {
            None
        }
    }
}

/// A time of day: the whole seconds since midnight, and the nanoseconds since
/// the last whole second. Within a leap second the seconds stay at the 59th
/// of their minute and the nanoseconds go on past 1,000,000,000.
#[derive(Clone, Copy, PartialEq, Eq, Debug)]
pub struct TimeOfDay {
    pub secs: u32,
    pub nanos: u32,
}

/// What chrono reads `text` as, where it reads it as a time of day: the
/// seconds since midnight, and the nanoseconds since the last whole second.
pub uninterp spec fn time_reading(text: Seq<char>) -> Result<(u32, u32), ParseFailure>;

/// The whole units of `unit` in `amount`, counted towards zero.
pub open spec fn whole(amount: int, unit: int) -> int {
    if amount >= 0 {
        amount / unit
    } else {
        -((-amount) / unit)
    }
}

/// Reads a time of day with chrono's `FromStr` for `NaiveTime`, and takes the
/// time by `Timelike::num_seconds_from_midnight` and `Timelike::nanosecond`.
/// The failure is the kind that chrono's error reports. Of the reading it is
/// claimed that it depends on the text alone, and that what is read is a
/// time of day: chrono makes it from an hour under 24, a minute and a second
/// under 60, and nanoseconds that pass 1,000,000,000 in second 59 alone.
#[verifier::external_body]
fn read_time(text: &str) -> (r: Result<(u32, u32), ParseFailure>)
    ensures
        r == time_reading(text@),
        r matches Ok((secs, nanos)) ==> (TimeOfDay { secs, nanos }).is_time_spec(),
{
    match text.parse::<NaiveTime>() {
        Ok(time) => Ok((time.num_seconds_from_midnight(), time.nanosecond())),
        Err(e) => Err(match e.kind() {
            ParseErrorKind::OutOfRange => ParseFailure::OutOfRange,
            ParseErrorKind::Impossible => ParseFailure::Impossible,
            ParseErrorKind::NotEnough => ParseFailure::NotEnough,
            ParseErrorKind::Invalid => ParseFailure::Invalid,
            ParseErrorKind::TooShort => ParseFailure::TooShort,
            ParseErrorKind::TooLong => ParseFailure::TooLong,
            ParseErrorKind::BadFormat => ParseFailure::BadFormat,
            _ => ParseFailure::Unclassified,
        }),
    }
}

/// Subtracts two times of day with chrono's `NaiveTime::signed_duration_since`
/// and takes the difference by `TimeDelta::num_seconds`. The two times are
/// made by `NaiveTime::from_num_seconds_from_midnight_opt`, which makes none
/// of numbers that are no time of day. The count is claimed to be what
/// chrono's source computes: the difference of the seconds and of the
/// nanoseconds, with one second more or less where the earlier of two times
/// in different seconds is within a leap second, in whole seconds towards
/// zero.
#[verifier::external_body]
fn count_seconds(to: TimeOfDay, from: TimeOfDay) -> (r: Option<i64>)
    ensures
        match r {
            Some(seconds) => to.is_time_spec() && from.is_time_spec() && seconds
                == to.seconds_from(from),
            None => !(to.is_time_spec() && from.is_time_spec()),
        },
{
    let later = NaiveTime::from_num_seconds_from_midnight_opt(to.secs, to.nanos)?;
    let earlier = NaiveTime::from_num_seconds_from_midnight_opt(from.secs, from.nanos)?;
    Some(later.signed_duration_since(earlier).num_seconds())
}

impl TimeOfDay {
    /// Whether the numbers are those of a time of day: fewer seconds than a
    /// day has, and nanoseconds that pass 1,000,000,000 only within a leap
    /// second, which is the 59th of its minute, and stay under twice that.
    pub open spec fn is_time_spec(self) -> bool {
        &&& self.secs < 86_400
        &&& self.nanos < 2_000_000_000
        &&& (self.nanos >= 1_000_000_000 ==> self.secs % 60 == 59)
    }

    /// Tells whether the numbers are those of a time of day.
    #[verifier::when_used_as_spec(is_time_spec)]
    pub fn is_time(self) -> (r: bool)
        ensures
            r == self.is_time_spec(),
    {
        self.secs < 86_400 && self.nanos < 2_000_000_000 && (self.nanos < 1_000_000_000
            || self.secs % 60 == 59)
    }

    /// The second that a leap second adds between `from` and this time, or
    /// takes away: where the two are in different seconds and the earlier
    /// one is within a leap second, that second is counted.
    pub open spec fn leap_from(self, from: TimeOfDay) -> int {
        if self.secs > from.secs && from.nanos >= 1_000_000_000 {
            1
        } else if self.secs < from.secs && self.nanos >= 1_000_000_000 {
            -1
        } else {
            0
        }
    }

    /// The nanoseconds from `from` to this time, negative where this time is
    /// the earlier one.
    pub open spec fn nanos_from(self, from: TimeOfDay) -> int {
        (self.secs - from.secs + self.leap_from(from)) * 1_000_000_000 + (self.nanos - from.nanos)
    }

    /// The whole seconds from `from` to this time, counted towards zero.
    pub open spec fn seconds_from(self, from: TimeOfDay) -> int {
        whole(self.nanos_from(from), 1_000_000_000)
    }

    /// Counts the whole seconds from `from` to this time, where both are
    /// times of day.
    pub fn seconds_since(self, from: TimeOfDay) -> (r: Option<i64>)
        ensures
            r is Some <==> self.is_time() && from.is_time(),
            r matches Some(seconds) ==> seconds == self.seconds_from(from),
    {
        count_seconds(self, from)
    }

    /// What `text` reads as.
    pub open spec fn reading(text: Seq<char>) -> Result<TimeOfDay, ParseFailure> {
        match time_reading(text) {
            Ok((secs, nanos)) => Ok(TimeOfDay { secs, nanos }),
            Err(failure) => Err(failure),
        }
    }

    /// Reads a time of day from its textual form, such as `09:15`.
    pub fn parse(text: &str) -> (r: Result<TimeOfDay, ParseFailure>)
        ensures
            r == TimeOfDay::reading(text@),
            r matches Ok(time) ==> time.is_time(),
    {
        match read_time(text) {
            Ok((secs, nanos)) => Ok(TimeOfDay { secs, nanos }),
            Err(failure) => Err(failure),
        }
    }

    /// Whether this time is `other` or an earlier one.
    pub open spec fn le(self, other: TimeOfDay) -> bool {
        self.secs < other.secs || (self.secs == other.secs && self.nanos <= other.nanos)
    }

    /// Whether this time is `other` or an earlier one.
    pub fn not_after(self, other: TimeOfDay) -> (r: bool)
        ensures
            r == self.le(other),
    {
        self.secs < other.secs || (self.secs == other.secs && self.nanos <= other.nanos)
    }

    /// The hour of the day.
    pub fn hour(self) -> (r: u32)
        ensures
            r == self.secs / 3600,
    {
        self.secs / 3600
    }

    /// The minute of the hour.
    pub fn minute(self) -> (r: u32)
        ensures
            r == self.secs / 60 % 60,
    {
        self.secs / 60 % 60
    }
}

/// From a time of day to one that is not earlier, no seconds are counted
/// below zero.
pub proof fn lemma_seconds_not_negative(to: TimeOfDay, from: TimeOfDay)
    requires
        to.is_time(),
        from.is_time(),
        from.le(to),
    ensures
        to.seconds_from(from) >= 0,
{
    assert(to.nanos_from(from) >= 0);
}

/// A civil date with a time of day.
#[derive(Clone, Copy, PartialEq, Eq, Debug)]
pub struct Moment {
    pub date: Date,
    pub time: TimeOfDay,
}

} // verus!

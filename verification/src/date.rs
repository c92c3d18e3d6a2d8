//! Calendar dates, as chrono's `NaiveDate` holds them, with the parsing and
//! printing that chrono does for them.
use chrono::Datelike;
use vstd::prelude::*;

use crate::text::{decimal, digit_char};

verus! {

/// The first year that chrono's `NaiveDate` can hold.
pub open spec fn min_year() -> int {
    -262143
}

/// The last year that chrono's `NaiveDate` can hold.
pub open spec fn max_year() -> int {
    262142
}

/// Leap years of the proleptic Gregorian calendar.
pub open spec fn is_leap_year(y: int) -> bool {
    y % 4 == 0 && (y % 100 != 0 || y % 400 == 0)
}

/// The number of days of month `m` in year `y`.
pub open spec fn days_in_month(y: int, m: int) -> int {
    if m == 2 {
        if is_leap_year(y) {
            29
        } else {
            28
        }
    } else if m == 4 || m == 6 || m == 9 || m == 11 {
        30
    } else {
        31
    }
}

/// A day that chrono's `NaiveDate` can stand for.
pub open spec fn valid_ymd(y: int, m: int, d: int) -> bool {
    &&& min_year() <= y <= max_year()
    &&& 1 <= m <= 12
    &&& 1 <= d <= days_in_month(y, m)
}

/// A calendar date: year, month (1 to 12) and day of the month.
#[derive(Clone, Copy, Debug, PartialEq, Eq)]
pub struct Date {
    year: i32,
    month: u32,
    day: u32,
}

impl View for Date {
    type V = (int, int, int);

    closed spec fn view(&self) -> (int, int, int) {
        (self.year as int, self.month as int, self.day as int)
    }
}

impl Date {
    #[verifier::type_invariant]
    closed spec fn inv(self) -> bool {
        valid_ymd(self.year as int, self.month as int, self.day as int)
    }

    /// The date for a valid year, month and day.
    pub fn from_ymd(year: i32, month: u32, day: u32) -> (d: Date)
        requires
            valid_ymd(year as int, month as int, day as int),
        ensures
            d@ == (year as int, month as int, day as int),
    {
        Date { year, month, day }
    }

    /// The year.
    pub fn year(&self) -> (y: i32)
        ensures
            y as int == self@.0,
    {
        self.year
    }

    /// The month, from 1 to 12.
    pub fn month(&self) -> (m: u32)
        ensures
            m as int == self@.1,
    {
        self.month
    }

    /// The day of the month.
    pub fn day(&self) -> (d: u32)
        ensures
            d as int == self@.2,
    {
        self.day
    }

    /// Every date is a valid calendar day.
    pub fn check_valid(&self)
        ensures
            valid_ymd(self@.0, self@.1, self@.2),
    {
        proof {
            use_type_invariant(self);
        }
    }

    /// Whether `self` comes strictly after `other` in the calendar.
    pub fn is_after(&self, other: &Date) -> (b: bool)
        ensures
            b == date_before(other@, self@),
    {
        if self.year != other.year {
            self.year > other.year
        } else if self.month != other.month {
            self.month > other.month
        } else {
            self.day > other.day
        }
    }

    /// The date as chrono prints it: `YYYY-MM-DD`. Read back as a date, the
    /// text gives the same date.
    pub fn to_iso_string(&self) -> (s: String)
        ensures
            s@ == iso_date_text(self@.0, self@.1, self@.2),
            chrono_reads(s@, self@),
            flexible_date(s@) == Some(self@),
    {
        proof {
            use_type_invariant(self);
        }
        chrono_date_text(self.year, self.month, self.day)
    }

    /// The date as chrono formats it with `%Y%m%d`, as calendars write it.
    pub fn to_compact_string(&self) -> (s: String)
        ensures
            s@ == compact_date_text(self@.0, self@.1, self@.2),
    {
        proof {
            use_type_invariant(self);
        }
        chrono_compact_text(self.year, self.month, self.day)
    }
}

/// Chronological order of dates given as (year, month, day).
pub open spec fn date_before(a: (int, int, int), b: (int, int, int)) -> bool {
    a.0 < b.0 || (a.0 == b.0 && (a.1 < b.1 || (a.1 == b.1 && a.2 < b.2)))
}

impl Default for Date {
    /// chrono's default date: the first of January 1970.
    fn default() -> (d: Date)
        ensures
            d@ == (1970int, 1int, 1int),
    {
        Date { year: 1970, month: 1, day: 1 }
    }
}

/// `s` with zeros in front until it has at least `width` characters.
pub open spec fn zero_pad(s: Seq<char>, width: nat) -> Seq<char>
    decreases width,
{
    if s.len() >= width {
        s
    } else {
        seq!['0'] + zero_pad(s, (width - 1) as nat)
    }
}

/// Two digits for a month or a day.
pub open spec fn two_digits(n: int) -> Seq<char> {
    seq![digit_char(n / 10), digit_char(n % 10)]
}

/// The year as chrono prints it: four digits for years 0 to 9999, otherwise
/// a sign and at least four digits.
pub open spec fn iso_year_text(y: int) -> Seq<char> {
    if 0 <= y <= 9999 {
        seq![digit_char(y / 1000), digit_char((y / 100) % 10), digit_char((y / 10) % 10), digit_char(y % 10)]
    } else if y < 0 {
        seq!['-'] + zero_pad(decimal((-y) as nat), 4)
    } else {
        seq!['+'] + zero_pad(decimal(y as nat), 4)
    }
}

/// A date as chrono's `Display` prints it.
pub open spec fn iso_date_text(y: int, m: int, d: int) -> Seq<char> {
    iso_year_text(y) + seq!['-'] + two_digits(m) + seq!['-'] + two_digits(d)
}

/// Why chrono did not read a text as a date: the kinds of chrono's
/// `ParseErrorKind`.
#[derive(Debug, Clone, Copy, PartialEq, Eq)]
pub enum DateParseError {
    OutOfRange,
    Impossible,
    NotEnough,
    Invalid,
    TooShort,
    TooLong,
    BadFormat,
    Unknown,
}

/// What chrono's `NaiveDate::parse_from_str(s, "%Y-%m-%d")` gives for `s`:
/// (year, month, day), or the kind of its error.
pub uninterp spec fn chrono_ymd(s: Seq<char>) -> Result<(int, int, int), DateParseError>;

/// Whether a (year, month, day) result is the one chrono gives, and a day
/// that `NaiveDate` can hold.
pub open spec fn ymd_result_is(r: Result<(i32, u32, u32), DateParseError>, c: Result<(int, int, int), DateParseError>) -> bool {
    match r {
        Ok(t) => c == Ok::<(int, int, int), DateParseError>((t.0 as int, t.1 as int, t.2 as int))
            && valid_ymd(t.0 as int, t.1 as int, t.2 as int),
        Err(e) => c == Err::<(int, int, int), DateParseError>(e),
    }
}

/// Whether a parsed date is the one chrono gives, or its error the one
/// chrono reports.
pub open spec fn date_result_is(r: Result<Date, DateParseError>, c: Result<(int, int, int), DateParseError>) -> bool {
    match r {
        Ok(d) => c == Ok::<(int, int, int), DateParseError>(d@),
        Err(e) => c == Err::<(int, int, int), DateParseError>(e),
    }
}

/// Calls chrono's `NaiveDate::parse_from_str` with the format `%Y-%m-%d`.
/// Trusted: the result is what `chrono_ymd` names for the input, with the
/// kind of chrono's error in place of the error; a parsed date is a day that
/// `NaiveDate` can hold (chrono builds no other).
#[verifier::external_body]
fn chrono_parse_ymd(s: &str) -> (r: Result<(i32, u32, u32), DateParseError>)
    ensures
        ymd_result_is(r, chrono_ymd(s@)),
{
    match chrono::NaiveDate::parse_from_str(s, "%Y-%m-%d") {
        Ok(d) => Ok((d.year(), d.month(), d.day())),
        Err(e) => Err(
            match e.kind() {
                chrono::format::ParseErrorKind::OutOfRange => DateParseError::OutOfRange,
                chrono::format::ParseErrorKind::Impossible => DateParseError::Impossible,
                chrono::format::ParseErrorKind::NotEnough => DateParseError::NotEnough,
                chrono::format::ParseErrorKind::Invalid => DateParseError::Invalid,
                chrono::format::ParseErrorKind::TooShort => DateParseError::TooShort,
                chrono::format::ParseErrorKind::TooLong => DateParseError::TooLong,
                chrono::format::ParseErrorKind::BadFormat => DateParseError::BadFormat,
                chrono::format::ParseErrorKind::__Nonexhaustive => DateParseError::Unknown,
            },
        ),
    }
}

/// Whether chrono reads the text, with `%Y-%m-%d`, as the given date.
pub open spec fn chrono_reads(s: Seq<char>, date: (int, int, int)) -> bool {
    chrono_ymd(s) == Ok::<(int, int, int), DateParseError>(date)
}

/// Prints a date with chrono's `Display` for `NaiveDate`.
/// Trusted: the text is `iso_date_text`, which is how chrono's source writes
/// a `NaiveDate` (two groups of two digits for years 0 to 9999, `{:+05}`
/// otherwise, then `-MM-DD`); and chrono reads that text back, with
/// `%Y-%m-%d`, as the same date (its `%Y` parser takes four digits, or a
/// sign and any number of digits).
#[verifier::external_body]
fn chrono_date_text(y: i32, m: u32, d: u32) -> (s: String)
    requires
        valid_ymd(y as int, m as int, d as int),
    ensures
        s@ == iso_date_text(y as int, m as int, d as int),
        chrono_reads(s@, (y as int, m as int, d as int)),
{
    chrono::NaiveDate::from_ymd_opt(y, m, d).unwrap().to_string()
}

/// A date written without separators: year, month and day, as `%Y%m%d`
/// writes it.
pub open spec fn compact_date_text(y: int, m: int, d: int) -> Seq<char> {
    iso_year_text(y) + two_digits(m) + two_digits(d)
}

/// Formats a date with chrono's `NaiveDate::format("%Y%m%d")`.
/// Trusted: the text is `compact_date_text`, which is how chrono's source
/// writes `%Y` (four digits for years 0 to 9999, `{:+05}` otherwise), `%m`
/// and `%d` (two digits each).
#[verifier::external_body]
fn chrono_compact_text(y: i32, m: u32, d: u32) -> (s: String)
    requires
        valid_ymd(y as int, m as int, d as int),
    ensures
        s@ == compact_date_text(y as int, m as int, d as int),
{
    chrono::NaiveDate::from_ymd_opt(y, m, d).unwrap().format("%Y%m%d").to_string()
}

/// The date `days` days after the given one, as chrono's
/// `NaiveDate::checked_add_days` computes it.
pub uninterp spec fn chrono_add_days(y: int, m: int, d: int, days: int) -> Option<(int, int, int)>;

/// Calls chrono's `NaiveDate::checked_add_days`.
/// Trusted: the result is what `chrono_add_days` names; chrono's source
/// returns `None` for more than `i32::MAX` days, and any date it returns is
/// one that `NaiveDate` can hold.
#[verifier::external_body]
fn chrono_checked_add_days(y: i32, m: u32, d: u32, days: u64) -> (r: Option<(i32, u32, u32)>)
    requires
        valid_ymd(y as int, m as int, d as int),
    ensures
        r matches Some(t) ==> chrono_add_days(y as int, m as int, d as int, days as int) == Some(
            (t.0 as int, t.1 as int, t.2 as int),
        ) && valid_ymd(t.0 as int, t.1 as int, t.2 as int),
        r is None ==> chrono_add_days(y as int, m as int, d as int, days as int) is None,
        days > i32::MAX ==> r is None,
{
    match chrono::NaiveDate::from_ymd_opt(y, m, d).unwrap().checked_add_days(chrono::Days::new(days)) {
        Some(n) => Some((n.year(), n.month(), n.day())),
        None => None,
    }
}

/// Parses a `YYYY-MM-DD` date with chrono.
pub fn parse_ymd(date: &str) -> (r: Result<Date, DateParseError>)
    ensures
        date_result_is(r, chrono_ymd(date@)),
{
    match chrono_parse_ymd(date) {
        Ok(t) => Ok(Date::from_ymd(t.0, t.1, t.2)),
        Err(e) => Err(e),
    }
}

/// The text `1-` followed by `date`: a month and day read as a date of year 1.
pub open spec fn year_one(date: Seq<char>) -> Seq<char> {
    seq!['1', '-'] + date
}

/// Parses a `MM-DD` date as a day of year 1.
pub fn parse_md(date: &str) -> (r: Result<Date, DateParseError>)
    ensures
        date_result_is(r, chrono_ymd(year_one(date@))),
{
    let mut s = String::new();
    crate::text::push_char(&mut s, '1');
    crate::text::push_char(&mut s, '-');
    crate::text::push_str(&mut s, date);
    assert(s@ == year_one(date@));
    parse_ymd(s.as_str())
}

/// The date a text stands for when it may be a full date or a month and a
/// day: the full form is tried first.
pub open spec fn flexible_date(s: Seq<char>) -> Option<(int, int, int)> {
    match chrono_ymd(s) {
        Ok(d) => Some(d),
        Err(_) => match chrono_ymd(year_one(s)) {
            Ok(d) => Some(d),
            Err(_) => None,
        },
    }
}

/// Reads a date as `YYYY-MM-DD`, or failing that as `MM-DD` of year 1.
pub fn parse_flexible(date: &str) -> (r: Option<Date>)
    ensures
        r is Some <==> flexible_date(date@) is Some,
        r matches Some(d) ==> flexible_date(date@) == Some(d@),
{
    match parse_ymd(date) {
        Ok(d) => Some(d),
        Err(_) => match parse_md(date) {
            Ok(d) => Some(d),
            Err(_) => None,
        },
    }
}

/// The date `days` days after `date`, if chrono can hold it.
pub fn add_days(date: &Date, days: u64) -> (r: Option<Date>)
    ensures
        r is Some <==> chrono_add_days(date@.0, date@.1, date@.2, days as int) is Some,
        r matches Some(n) ==> chrono_add_days(date@.0, date@.1, date@.2, days as int) == Some(n@),
        days > i32::MAX ==> r is None,
{
    date.check_valid();
    match chrono_checked_add_days(date.year(), date.month(), date.day(), days) {
        Some(t) => Some(Date::from_ymd(t.0, t.1, t.2)),
        None => None,
    }
}

} // verus!

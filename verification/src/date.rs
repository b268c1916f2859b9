use chrono::{DateTime, Datelike, NaiveDate, Utc};
use vstd::prelude::*;

verus! {

/// Whether `year` is a leap year of the proleptic Gregorian calendar.
pub open spec fn is_leap_year(year: int) -> bool {
    (year % 4 == 0 && year % 100 != 0) || year % 400 == 0
}

/// The number of days of `month` (1 to 12) in `year`.
pub open spec fn days_in_month(year: int, month: int) -> int {
    if month == 2 {
        if is_leap_year(year) { 29 } else { 28 }
    } else if month == 4 || month == 6 || month == 9 || month == 11 {
        30
    } else {
        31
    }
}

/// Whether `(year, month, day)` names a day of the proleptic Gregorian calendar.
pub open spec fn is_calendar_date(year: int, month: int, day: int) -> bool {
    &&& 1 <= month <= 12
    &&& 1 <= day <= days_in_month(year, month)
}

/// A calendar date (year, month, day) without time zone.
#[derive(Clone, Copy, Debug, PartialEq, Eq, Structural)]
pub struct Date {
    pub year: i32,
    pub month: u32,
    pub day: u32,
}

impl Date {
    /// The date names a real day of the calendar.
    pub open spec fn wf(self) -> bool {
        is_calendar_date(self.year as int, self.month as int, self.day as int)
    }

    /// The date as a triple of integers.
    pub open spec fn triple(self) -> (int, int, int) {
        (self.year as int, self.month as int, self.day as int)
    }

    /// `self` falls on `other` or on an earlier day.
    pub open spec fn spec_on_or_before(self, other: Date) -> bool {
        ||| self.year < other.year
        ||| (self.year == other.year && self.month < other.month)
        ||| (self.year == other.year && self.month == other.month && self.day <= other.day)
    }

    /// The first of January 1970, the date a fresh set of inputs starts with.
    pub fn epoch() -> (res: Date)
        ensures
            res.year == 1970 && res.month == 1 && res.day == 1,
            res.wf(),
    {
        Date { year: 1970, month: 1, day: 1 }
    }

    /// Whether `self` falls on `other` or before it.
    pub fn on_or_before(&self, other: &Date) -> (res: bool)
        ensures
            res == self.spec_on_or_before(*other),
    {
        if self.year != other.year {
            self.year < other.year
        } else if self.month != other.month {
            self.month < other.month
        } else {
            self.day <= other.day
        }
    }

    /// Reads a date written as `year-month-day`, as chrono reads a `NaiveDate`.
    pub fn parse(s: &str) -> (res: Result<Date, chrono::ParseError>)
        ensures
            res is Ok <==> naive_date_from_str(s@) is Some,
            res matches Ok(d) ==> Some(d.triple()) == naive_date_from_str(s@) && d.wf(),
    {
        parse_naive_date(s)
    }

    /// The UTC calendar date of the instant `secs` seconds and `nanos`
    /// nanoseconds after the Unix epoch; `None` where chrono cannot represent it.
    pub fn from_utc_timestamp(secs: i64, nanos: u32) -> (res: Option<Date>)
        ensures
            res is Some <==> utc_date_of_timestamp(secs as int, nanos as int) is Some,
            res matches Some(d) ==> Some(d.triple()) == utc_date_of_timestamp(secs as int, nanos as int) && d.wf(),
    {
        utc_date_from_timestamp(secs, nanos)
    }
}

/// Laws of the order on dates: it is reflexive, transitive, antisymmetric and total.
pub proof fn lemma_date_order(a: Date, b: Date, c: Date)
    ensures
        a.spec_on_or_before(a),
        a.spec_on_or_before(b) && b.spec_on_or_before(c) ==> a.spec_on_or_before(c),
        a.spec_on_or_before(b) && b.spec_on_or_before(a) ==> a == b,
        a.spec_on_or_before(b) || b.spec_on_or_before(a),
{
}

/// A date as one number: year, month and day side by side in decimal
/// (2024-06-15 is 20240615).
pub open spec fn day_number(d: Date) -> int {
    d.year as int * 10000 + d.month as int * 100 + d.day as int
}

/// The order on dates is the calendar's: an earlier year comes first, in the
/// same year an earlier month comes first whatever the days, and on real
/// calendar days it is the order of their day numbers.
pub proof fn lemma_order_is_calendar_order(a: Date, b: Date)
    ensures
        a.year < b.year ==> a.spec_on_or_before(b) && !b.spec_on_or_before(a),
        a.year == b.year && a.month < b.month ==> a.spec_on_or_before(b) && !b.spec_on_or_before(a),
        a.year == b.year && a.month == b.month ==> (a.spec_on_or_before(b) <==> a.day <= b.day),
        a.wf() && b.wf() ==> (a.spec_on_or_before(b) <==> day_number(a) <= day_number(b)),
{
    if a.wf() && b.wf() {
        assert(1 <= a.month <= 12 && 1 <= a.day <= 31);
        assert(1 <= b.month <= 12 && 1 <= b.day <= 31);
    }
}

/// The date, as `(year, month, day)`, that chrono's `NaiveDate::from_str` reads
/// from a string, or `None` where it refuses the string.
pub uninterp spec fn naive_date_from_str(s: Seq<char>) -> Option<(int, int, int)>;

/// The UTC calendar date, as `(year, month, day)`, of chrono's
/// `DateTime::<Utc>::from_timestamp(secs, nanos)`, or `None` where that is `None`.
pub uninterp spec fn utc_date_of_timestamp(secs: int, nanos: int) -> Option<(int, int, int)>;

/// Calls chrono's `NaiveDate::from_str`. Trusted: the result is the named
/// result `naive_date_from_str` of the string, and every date chrono yields is
/// a real calendar day (a `NaiveDate` cannot hold any other).
#[verifier::external_body]
fn parse_naive_date(s: &str) -> (res: Result<Date, chrono::ParseError>)
    ensures
        res is Ok <==> naive_date_from_str(s@) is Some,
        res matches Ok(d) ==> Some(d.triple()) == naive_date_from_str(s@) && d.wf(),
{
    match s.parse::<NaiveDate>() {
        Ok(d) => Ok(Date { year: d.year(), month: d.month(), day: d.day() }),
        Err(e) => Err(e),
    }
}

/// Calls chrono's `DateTime::<Utc>::from_timestamp` and takes the calendar date
/// of the result. Trusted: the result is the named result
/// `utc_date_of_timestamp` of the two numbers, and it is a real calendar day.
#[verifier::external_body]
fn utc_date_from_timestamp(secs: i64, nanos: u32) -> (res: Option<Date>)
    ensures
        res is Some <==> utc_date_of_timestamp(secs as int, nanos as int) is Some,
        res matches Some(d) ==> Some(d.triple()) == utc_date_of_timestamp(secs as int, nanos as int) && d.wf(),
{
    match DateTime::<Utc>::from_timestamp(secs, nanos) {
        Some(dt) => {
            let d = dt.naive_utc().date();
            Some(Date { year: d.year(), month: d.month(), day: d.day() })
        },
        None => None,
    }
}

/// chrono's `ParseError`, the error of `NaiveDate::from_str`.
#[verifier::external_type_specification]
#[verifier::external_body]
pub struct ExParseError(chrono::ParseError);

} // verus!

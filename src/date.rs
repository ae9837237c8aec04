use vstd::prelude::*;

use chrono::{Datelike, NaiveDate};

use crate::error::CalendarError;

verus! {

/// Day number of the earliest date chrono represents (January 1, 262144 BCE).
pub const MIN_DAY: i32 = -95746129;

/// Day number of the latest date chrono represents (December 31, 262142 CE).
pub const MAX_DAY: i32 = 95745399;

/// The day number that `NaiveDate::parse_from_str(s, "%Y-%m-%d")` reads from `s`,
/// or `None` where it refuses `s`.
pub uninterp spec fn iso_parse(s: Seq<char>) -> Option<int>;

/// The text that chrono's `format("%Y-%m-%d")` writes for a day number.
pub uninterp spec fn iso_text(day: int) -> Seq<char>;

/// Day of the week of a day number, Monday being 0. Day 1 (January 1 of year 1
/// in the proleptic Gregorian calendar) is a Monday.
pub open spec fn weekday_index(day: int) -> int {
    (day - 1) % 7
}

/// Relies on chrono's `NaiveDate::parse_from_str` with format `%Y-%m-%d` and on
/// `Datelike::num_days_from_ce`, which counts January 1 of year 1 as day 1.
/// Every `NaiveDate` lies between `NaiveDate::MIN` and `NaiveDate::MAX`.
#[verifier::external_body]
fn parse_day_number(s: &str) -> (r: Option<i32>)
    ensures
        match r {
            Some(n) => iso_parse(s@) == Some(n as int) && MIN_DAY <= n <= MAX_DAY,
            None => iso_parse(s@) is None,
        },
{
    NaiveDate::parse_from_str(s, "%Y-%m-%d").ok().map(|d| d.num_days_from_ce())
}

/// Relies on chrono's `NaiveDate::from_num_days_from_ce_opt`, which accepts every
/// day number from `NaiveDate::MIN` to `NaiveDate::MAX`, and on
/// `NaiveDate::format("%Y-%m-%d")` for the text.
#[verifier::external_body]
fn format_day_number(day: i32) -> (r: Option<String>)
    requires
        MIN_DAY <= day <= MAX_DAY,
    ensures
        r is Some,
        r.unwrap()@ == iso_text(day as int),
{
    NaiveDate::from_num_days_from_ce_opt(day).map(|d| d.format("%Y-%m-%d").to_string())
}

/// Relies on chrono's `NaiveDate::from_num_days_from_ce_opt` (in range for every
/// day number from `NaiveDate::MIN` to `NaiveDate::MAX`) and on
/// `Weekday::num_days_from_monday` of its `weekday()`.
#[verifier::external_body]
fn weekday_of_day_number(day: i32) -> (r: Option<u32>)
    requires
        MIN_DAY <= day <= MAX_DAY,
    ensures
        r is Some,
        r.unwrap() as int == weekday_index(day as int),
{
    NaiveDate::from_num_days_from_ce_opt(day).map(|d| d.weekday().num_days_from_monday())
}

/// A calendar date, held as its day number in the proleptic Gregorian calendar
/// (January 1 of year 1 is day 1), within the range that chrono represents.
#[derive(Clone, Copy, Debug, PartialEq, Eq, Structural)]
pub struct Date {
    days: i32,
}

impl View for Date {
    type V = int;

    closed spec fn view(&self) -> int {
        self.days as int
    }
}

impl Date {
    #[verifier::type_invariant]
    spec fn in_range(self) -> bool {
        MIN_DAY <= self.days <= MAX_DAY
    }

    pub fn from_day_number(n: i32) -> (r: Option<Date>)
        ensures
            r is Some <==> MIN_DAY <= n <= MAX_DAY,
            r is Some ==> r.unwrap()@ == n,
    {
        if MIN_DAY <= n && n <= MAX_DAY {
            Some(Date { days: n })
        } else {
            None
        }
    }

    pub fn day_number(&self) -> (r: i32)
        ensures
            r == self@,
            MIN_DAY <= r <= MAX_DAY,
    {
        proof {
            use_type_invariant(self);
        }
        self.days
    }

    /// Reads a `YYYY-MM-DD` date.
    pub fn parse(s: &str) -> (r: Result<Date, CalendarError>)
        ensures
            match r {
                Ok(d) => iso_parse(s@) == Some(d@),
                Err(e) => iso_parse(s@) is None && e == CalendarError::ParseError,
            },
    {
        match parse_day_number(s) {
            Some(n) => Ok(Date { days: n }),
            None => Err(CalendarError::ParseError),
        }
    }

    /// Writes the date as `YYYY-MM-DD`.
    pub fn to_iso_string(&self) -> (r: String)
        ensures
            r@ == iso_text(self@),
    {
        proof {
            use_type_invariant(self);
        }
        format_day_number(self.days).unwrap()
    }

    pub fn weekday(&self) -> (r: u32)
        ensures
            r == weekday_index(self@),
    {
        proof {
            use_type_invariant(self);
        }
        weekday_of_day_number(self.days).unwrap()
    }

    /// The following day; `None` on the last representable date.
    pub fn next(&self) -> (r: Option<Date>)
        ensures
            r is Some <==> self@ < MAX_DAY,
            r is Some ==> r.unwrap()@ == self@ + 1,
    {
        proof {
            use_type_invariant(self);
        }
        if self.days < MAX_DAY {
            Some(Date { days: self.days + 1 })
        } else {
            None
        }
    }

    /// The previous day; `None` on the first representable date.
    pub fn prev(&self) -> (r: Option<Date>)
        ensures
            r is Some <==> self@ > MIN_DAY,
            r is Some ==> r.unwrap()@ == self@ - 1,
    {
        proof {
            use_type_invariant(self);
        }
        if self.days > MIN_DAY {
            Some(Date { days: self.days - 1 })
        } else {
            None
        }
    }
}

} // verus!

//! Publication dates of images, to the second.

use vstd::prelude::*;

verus! {

/// A calendar date and a time of day, without time zone.
#[derive(Clone, Copy, Debug, PartialEq, Eq, Structural)]
pub struct Timestamp {
    pub year: i32,
    pub month: u32,
    pub day: u32,
    pub hour: u32,
    pub minute: u32,
    pub second: u32,
}

/// Pattern of the date that a normalized file name carries: `YYYYMMDD`.
pub const DAY_PATTERN: &'static str = "%Y%m%d";

/// Pattern of the date that the history stores: `YYYY-MM-DD HH:MM:SS`.
pub const SECOND_PATTERN: &'static str = "%Y-%m-%d %H:%M:%S";

/// `year` is a leap year of the Gregorian calendar.
pub open spec fn is_leap_year(year: int) -> bool {
    year % 4 == 0 && (year % 100 != 0 || year % 400 == 0)
}

/// Number of days of `month` in `year` (0 for a month that does not exist).
pub open spec fn days_in_month(year: int, month: int) -> int {
    if month == 1 || month == 3 || month == 5 || month == 7 || month == 8 || month == 10 || month
        == 12 {
        31
    } else if month == 4 || month == 6 || month == 9 || month == 11 {
        30
    } else if month == 2 {
        if is_leap_year(year) {
            29
        } else {
            28
        }
    } else {
        0
    }
}

/// The decimal digit `n` as a character.
pub open spec fn digit(n: int) -> char {
    if n == 0 {
        '0'
    } else if n == 1 {
        '1'
    } else if n == 2 {
        '2'
    } else if n == 3 {
        '3'
    } else if n == 4 {
        '4'
    } else if n == 5 {
        '5'
    } else if n == 6 {
        '6'
    } else if n == 7 {
        '7'
    } else if n == 8 {
        '8'
    } else {
        '9'
    }
}

/// `n` in two decimal digits, padded with a zero.
pub open spec fn two_digits(n: int) -> Seq<char> {
    seq![digit(n / 10 % 10), digit(n % 10)]
}

/// `n` in four decimal digits, padded with zeros.
pub open spec fn four_digits(n: int) -> Seq<char> {
    seq![digit(n / 1000 % 10), digit(n / 100 % 10), digit(n / 10 % 10), digit(n % 10)]
}

impl Timestamp {
    /// The fields name a day that exists, in a year of four digits, and a
    /// time of day without leap second.
    pub open spec fn wf(&self) -> bool {
        &&& 0 <= self.year <= 9999
        &&& 1 <= self.month <= 12
        &&& 1 <= self.day <= days_in_month(self.year as int, self.month as int)
        &&& self.hour < 24
        &&& self.minute < 60
        &&& self.second < 60
    }

    /// The day as `YYYYMMDD`.
    pub open spec fn day_text(&self) -> Seq<char> {
        four_digits(self.year as int) + two_digits(self.month as int) + two_digits(
            self.day as int,
        )
    }

    /// The instant as `YYYY-MM-DD HH:MM:SS`.
    pub open spec fn second_text(&self) -> Seq<char> {
        four_digits(self.year as int) + seq!['-'] + two_digits(self.month as int) + seq!['-']
            + two_digits(self.day as int) + seq![' '] + two_digits(self.hour as int) + seq![':']
            + two_digits(self.minute as int) + seq![':'] + two_digits(self.second as int)
    }

    /// `self` is strictly earlier than `other`.
    pub open spec fn earlier_than(&self, other: &Timestamp) -> bool {
        self.year < other.year || (self.year == other.year && (self.month < other.month || (
        self.month == other.month && (self.day < other.day || (self.day == other.day && (self.hour
            < other.hour || (self.hour == other.hour && (self.minute < other.minute || (
        self.minute == other.minute && self.second < other.second)))))))))
    }

    /// The timestamp of the given fields, when they name an instant that
    /// exists.
    pub fn new(year: i32, month: u32, day: u32, hour: u32, minute: u32, second: u32) -> (r:
        Option<Timestamp>)
        ensures
            r is Some <==> (Timestamp { year, month, day, hour, minute, second }).wf(),
            r matches Some(t) ==> t == (Timestamp { year, month, day, hour, minute, second }),
    {
        let t = Timestamp { year, month, day, hour, minute, second };
        if t.is_valid() {
            Some(t)
        } else {
            None
        }
    }

    /// Whether the fields name an instant that exists.
    pub fn is_valid(&self) -> (r: bool)
        ensures
            r == self.wf(),
    {
        if self.year < 0 || self.year > 9999 || self.month < 1 || self.month > 12 {
            return false;
        }
        let leap = self.year % 4 == 0 && (self.year % 100 != 0 || self.year % 400 == 0);
        let days: u32 = if self.month == 2 {
            if leap {
                29
            } else {
                28
            }
        } else if self.month == 4 || self.month == 6 || self.month == 9 || self.month == 11 {
            30
        } else {
            31
        };
        1 <= self.day && self.day <= days && self.hour < 24 && self.minute < 60 && self.second
            < 60
    }

    /// Whether `self` is strictly earlier than `other`.
    pub fn is_before(&self, other: &Timestamp) -> (r: bool)
        ensures
            r == self.earlier_than(other),
    {
        if self.year != other.year {
            self.year < other.year
        } else if self.month != other.month {
            self.month < other.month
        } else if self.day != other.day {
            self.day < other.day
        } else if self.hour != other.hour {
            self.hour < other.hour
        } else if self.minute != other.minute {
            self.minute < other.minute
        } else {
            self.second < other.second
        }
    }

    /// The day as `YYYYMMDD`.
    pub fn format_day(&self) -> (r: String)
        requires
            self.wf(),
        ensures
            r@ == self.day_text(),
    {
        format_timestamp(self, DAY_PATTERN).unwrap()
    }

    /// The instant as `YYYY-MM-DD HH:MM:SS`.
    pub fn format_second(&self) -> (r: String)
        requires
            self.wf(),
        ensures
            r@ == self.second_text(),
    {
        format_timestamp(self, SECOND_PATTERN).unwrap()
    }
}

/// Formats `at` with `chrono::NaiveDateTime::format`, after building the
/// value with `NaiveDate::from_ymd_opt` and `NaiveDate::and_hms_opt`.
///
/// Trusted, for an instant that exists in a year from 0 to 9999: both
/// constructors accept it; `%Y` writes the year in four digits, `%m`, `%d`,
/// `%H`, `%M` and `%S` write two digits each, all padded with zeros; other
/// characters of the pattern are copied. Only the two patterns of this
/// module are admitted, so that formatting cannot fail.
#[verifier::external_body]
fn format_timestamp(at: &Timestamp, pattern: &str) -> (r: Option<String>)
    requires
        pattern@ == DAY_PATTERN@ || pattern@ == SECOND_PATTERN@,
    ensures
        at.wf() ==> r is Some,
        at.wf() ==> (r matches Some(s) ==> {
            &&& pattern@ == DAY_PATTERN@ ==> s@ == at.day_text()
            &&& pattern@ == SECOND_PATTERN@ ==> s@ == at.second_text()
        }),
{
    let date = chrono::NaiveDate::from_ymd_opt(at.year, at.month, at.day)?;
    let instant = date.and_hms_opt(at.hour, at.minute, at.second)?;
    Some(instant.format(pattern).to_string())
}

} // verus!

//! Calendar dates of the proleptic Gregorian calendar, as front-matter holds them.

use vstd::prelude::*;
use crate::text::digit_char;

verus! {

/// Whether `year` is a leap year.
pub open spec fn is_leap_year(year: int) -> bool {
    (year % 4 == 0 && year % 100 != 0) || year % 400 == 0
}

/// The number of days in `month` of `year`.
pub open spec fn days_in_month(year: int, month: int) -> int {
    if month == 2 {
        if is_leap_year(year) { 29 } else { 28 }
    } else if month == 4 || month == 6 || month == 9 || month == 11 {
        30
    } else {
        31
    }
}

/// A civil date: year, month (1 to 12) and day of the month.
#[derive(Clone, Copy, Debug, PartialEq, Eq, Structural)]
pub struct Date {
    pub year: i16,
    pub month: i8,
    pub day: i8,
}

/// `n` (0 to 9999) written with four digits.
pub open spec fn pad4(n: int) -> Seq<char> {
    seq![digit_char(n / 1000), digit_char((n / 100) % 10), digit_char((n / 10) % 10), digit_char(n % 10)]
}

/// `n` (0 to 99) written with two digits.
pub open spec fn pad2(n: int) -> Seq<char> {
    seq![digit_char(n / 10), digit_char(n % 10)]
}

/// The ISO 8601 text of a date: `YYYY-MM-DD`; a year before 0 is written `-00YYYY`.
pub open spec fn iso_date_text(year: int, month: int, day: int) -> Seq<char> {
    let y = if year < 0 { seq!['-', '0', '0'] + pad4(-year) } else { pad4(year) };
    y + seq!['-'] + pad2(month) + seq!['-'] + pad2(day)
}

impl Date {
    /// A real date within the range that the calendar library supports.
    pub open spec fn valid(self) -> bool {
        &&& -9999 <= self.year <= 9999
        &&& 1 <= self.month <= 12
        &&& 1 <= self.day <= days_in_month(self.year as int, self.month as int)
    }

    /// `self` comes strictly before `other` in the calendar.
    pub open spec fn spec_before(self, other: Date) -> bool {
        ||| self.year < other.year
        ||| (self.year == other.year && self.month < other.month)
        ||| (self.year == other.year && self.month == other.month && self.day < other.day)
    }

    /// Whether `self` comes strictly before `other`.
    pub fn is_before(&self, other: &Date) -> (r: bool)
        ensures
            r == self.spec_before(*other),
    {
        self.year < other.year || (self.year == other.year && (self.month < other.month || (
        self.month == other.month && self.day < other.day)))
    }

    /// The ISO 8601 text of the date (`2000-01-01`).
    pub fn to_iso_string(&self) -> (r: String)
        requires
            self.valid(),
        ensures
            r@ == iso_date_text(self.year as int, self.month as int, self.day as int),
    {
        date_text(self.year, self.month, self.day)
    }
}

/// Relies on jiff's `Display` for `civil::Date`, which writes the year with four
/// digits (after `-00` when it is negative), then the month and the day with two.
#[verifier::external_body]
fn date_text(year: i16, month: i8, day: i8) -> (r: String)
    requires
        (Date { year, month, day }).valid(),
    ensures
        r@ == iso_date_text(year as int, month as int, day as int),
{
    jiff::civil::Date::new(year, month, day).unwrap().to_string()
}

/// Relies on jiff's `FromStr` for `civil::Date`: a date, optionally followed by a
/// time that is ignored, with no `Z` offset; every date that it returns is real.
#[verifier::external_body]
pub(crate) fn parse_date_text(text: &str) -> (r: Option<Date>)
    ensures
        r == parsed_date(text@),
        r matches Some(d) ==> d.valid(),
{
    match text.parse::<jiff::civil::Date>() {
        Ok(d) => Some(Date { year: d.year(), month: d.month(), day: d.day() }),
        Err(_) => None,
    }
}

/// The date that the calendar library reads from a text, if any.
pub uninterp spec fn parsed_date(text: Seq<char>) -> Option<Date>;

} // verus!

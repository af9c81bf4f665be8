use chrono::Datelike;
use vstd::prelude::*;

verus! {

/// A calendar date without a time component.
#[derive(Clone, Copy, Debug, PartialEq, Eq, Structural)]
pub struct Date {
    pub year: i32,
    pub month: u32,
    pub day: u32,
}

impl Date {
    /// Month and day within their calendar ranges.
    pub open spec fn wf(self) -> bool {
        1 <= self.month <= 12 && 1 <= self.day <= 31
    }
}

/// Calendar order: `a` falls on or before `b`.
pub open spec fn date_le(a: Date, b: Date) -> bool {
    a.year < b.year || (a.year == b.year && (a.month < b.month || (a.month == b.month
        && a.day <= b.day)))
}

/// What `NaiveDate::parse_from_str(s, "%Y-%m-%d")` yields, as year, month and day.
pub uninterp spec fn iso_date_of(s: Seq<char>) -> Option<(i32, u32, u32)>;

/// Relies on chrono's `NaiveDate::parse_from_str` with the pattern
/// `%Y-%m-%d`: it yields a real calendar date (month 1 to 12, day 1 to 31),
/// or an error for text that does not name one.
#[verifier::external_body]
fn parse_iso_date(s: &str) -> (r: Option<Date>)
    ensures
        r matches Some(d) ==> iso_date_of(s@) == Some((d.year, d.month, d.day)) && d.wf(),
        r is None ==> iso_date_of(s@) is None,
{
    match chrono::NaiveDate::parse_from_str(s, "%Y-%m-%d") {
        Ok(d) => Some(Date { year: d.year(), month: d.month(), day: d.day() }),
        Err(_) => None,
    }
}

/// The date that `s` names in `YYYY-MM-DD` form, if it names one.
pub open spec fn parsed_date(s: Seq<char>) -> Option<Date> {
    match iso_date_of(s) {
        Some((y, m, d)) => Some(Date { year: y, month: m, day: d }),
        None => None,
    }
}

/// Reads a `YYYY-MM-DD` calendar date.
pub fn parse_date(s: &str) -> (r: Option<Date>)
    ensures
        r == parsed_date(s@),
        r matches Some(d) ==> d.wf(),
{
    parse_iso_date(s)
}

/// Whether `a` falls on or before `b`.
pub fn date_not_after(a: &Date, b: &Date) -> (r: bool)
    ensures
        r == date_le(*a, *b),
{
    a.year < b.year || (a.year == b.year && (a.month < b.month || (a.month == b.month && a.day
        <= b.day)))
}

} // verus!

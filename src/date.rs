//! Calendar dates of deposition, read with chrono.
use vstd::prelude::*;

verus! {

/// A calendar date as year, month (1 to 12) and day of the month.
#[derive(Clone, Copy, Debug, PartialEq, Eq, Structural)]
pub struct Date {
    pub year: i32,
    pub month: u32,
    pub day: u32,
}

/// The year, month and day of the date that `text` writes as `DD-MON-YY`
/// (two-digit day, three-letter English month, two-digit year), if any.
pub uninterp spec fn calendar_date(text: Seq<char>) -> Option<(i32, u32, u32)>;

/// The date that `text` denotes, as a [`Date`].
pub open spec fn date_of(text: Seq<char>) -> Option<Date> {
    match calendar_date(text) {
        Some(t) => Some(Date { year: t.0, month: t.1, day: t.2 }),
        None => None,
    }
}

/// Relies on chrono's `NaiveDate::parse_from_str` with the format `%d-%b-%y`,
/// and on `Datelike::{year, month, day}` of the date it returns: the outcome
/// depends on the text alone.
#[verifier::external_body]
pub(crate) fn parse_date(text: &str) -> (r: Option<Date>)
    ensures
        match calendar_date(text@) {
            Some(t) => r is Some && r->0.year == t.0 && r->0.month == t.1 && r->0.day == t.2,
            None => r is None,
        },
{
    match chrono::NaiveDate::parse_from_str(text, "%d-%b-%y") {
        Ok(d) => Some(
            Date {
                year: chrono::Datelike::year(&d),
                month: chrono::Datelike::month(&d),
                day: chrono::Datelike::day(&d),
            },
        ),
        Err(_) => None,
    }
}

} // verus!

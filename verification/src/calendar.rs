//! Calendar resolution of stored creation times. A Unix timestamp maps
//! to a calendar date through the calendar library; the result is a
//! function of the timestamp alone, so it carries a name that the path
//! contracts speak of.

use chrono::Datelike;
use vstd::prelude::*;

verus! {

/// The calendar date (year, month, day) that a Unix timestamp falls on,
/// in UTC, or nothing when the timestamp lies outside the calendar's
/// range.
pub uninterp spec fn civil_of(ts: i64) -> Option<(int, int, int)>;

/// Relies on `chrono::DateTime::<Utc>::from_timestamp` and the
/// `Datelike` year/month/day accessors: the date is a function of the
/// timestamp alone; months run 1 to 12 and days 1 to 31; out-of-range
/// timestamps yield nothing.
#[verifier::external_body]
pub fn civil_from_timestamp(ts: i64) -> (r: Option<(i32, u32, u32)>)
    ensures
        match r {
            None => civil_of(ts) is None,
            Some(c) => civil_of(ts) matches Some(v) && v.0 == c.0 as int && v.1 == c.1 as int
                && v.2 == c.2 as int && 1 <= c.1 <= 12 && 1 <= c.2 <= 31,
        },
{
    match chrono::DateTime::from_timestamp(ts, 0) {
        None => None,
        Some(dt) => {
            let date = dt.naive_utc().date();
            Some((date.year(), date.month(), date.day()))
        },
    }
}

} // verus!

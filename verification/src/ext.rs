//! Trusted shims around functions of std that vstd gives no specification,
//! and around the clock of the `chrono` crate.

use vstd::prelude::*;

use chrono::{Datelike, Timelike};

verus! {

/// Relies on String::push: appends exactly one character at the end.
#[verifier::external_body]
pub(crate) fn push_char(s: &mut String, c: char)
    ensures
        final(s)@ == old(s)@.push(c),
{
    s.push(c);
}

/// Relies on String::pop: removes and returns the last character, or does
/// nothing and returns None when the string is empty.
#[verifier::external_body]
pub(crate) fn pop_char(s: &mut String) -> (r: Option<char>)
    ensures
        old(s)@.len() == 0 ==> final(s)@ == old(s)@ && r is None,
        old(s)@.len() > 0 ==> final(s)@ == old(s)@.drop_last() && r == Some(old(s)@.last()),
{
    s.pop()
}

/// Relies on chrono::Utc::now and the Datelike/Timelike accessors `year`,
/// `month`, `day`, `hour`, `minute` and `second`, whose documentation
/// promises months in 1..=12, days in 1..=31, hours below 24 and minutes
/// and seconds below 60. Nothing can be promised about which instant the
/// clock reports, so the year is returned as chrono hands it out.
#[verifier::external_body]
pub(crate) fn now_utc_fields() -> (r: (i64, u8, u8, u8, u8, u8))
    ensures
        1 <= r.1 <= 12,
        1 <= r.2 <= 31,
        r.3 < 24,
        r.4 < 60,
        r.5 < 60,
{
    let now = chrono::Utc::now();
    (
        now.year() as i64,
        now.month() as u8,
        now.day() as u8,
        now.hour() as u8,
        now.minute() as u8,
        now.second() as u8,
    )
}

/// Relies on chrono::Local::now and the same accessors as
/// [`now_utc_fields`], reporting the wall clock in the local time zone.
#[verifier::external_body]
pub(crate) fn now_local_fields() -> (r: (i64, u8, u8, u8, u8, u8))
    ensures
        1 <= r.1 <= 12,
        1 <= r.2 <= 31,
        r.3 < 24,
        r.4 < 60,
        r.5 < 60,
{
    let now = chrono::Local::now();
    (
        now.year() as i64,
        now.month() as u8,
        now.day() as u8,
        now.hour() as u8,
        now.minute() as u8,
        now.second() as u8,
    )
}

} // verus!

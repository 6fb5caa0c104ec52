//! Wall-clock timestamps: the one call to the system clock, and verified
//! formatting of dates and timestamps.

use vstd::prelude::*;
use chrono::Datelike;
use chrono::Timelike;
use crate::text::{spec_dec, spec_zero_pad, u64_to_string_padded};

verus! {

/// A local calendar date and time, split into plain components.
#[derive(Clone, Copy, Debug, PartialEq, Eq, Structural)]
pub struct DateTime {
    pub year: i32,
    pub month: u32,
    pub day: u32,
    pub hour: u32,
    pub minute: u32,
    pub second: u32,
}

/// The component ranges every clock reading satisfies (the year is
/// unconstrained here).
pub open spec fn spec_datetime_wf(d: DateTime) -> bool {
    &&& 1 <= d.month <= 12
    &&& 1 <= d.day <= 31
    &&& d.hour <= 23
    &&& d.minute <= 59
    &&& d.second <= 59
}

/// Relies on `chrono::Local::now` and the `Datelike` / `Timelike` accessors
/// (`year`, `month`, `day`, `hour`, `minute`, `second`): chrono documents
/// month 1–12, day 1–31, hour 0–23, minute 0–59, second 0–59.  The value
/// read depends on the clock: nothing more is promised.
#[verifier::external_body]
pub fn now_local() -> (d: DateTime)
    ensures
        spec_datetime_wf(d),
{
    let now = chrono::Local::now();
    DateTime {
        year: now.year(),
        month: now.month(),
        day: now.day(),
        hour: now.hour(),
        minute: now.minute(),
        second: now.second(),
    }
}

/// `YYYY-MM-DD`, each component zero-padded.
pub open spec fn spec_date(d: DateTime) -> Seq<char> {
    spec_zero_pad(spec_dec(d.year as int), 4) + seq!['-'] + spec_zero_pad(
        spec_dec(d.month as int),
        2,
    ) + seq!['-'] + spec_zero_pad(spec_dec(d.day as int), 2)
}

/// `HH:MM:SS`, each component zero-padded.
pub open spec fn spec_time(d: DateTime) -> Seq<char> {
    spec_zero_pad(spec_dec(d.hour as int), 2) + seq![':'] + spec_zero_pad(
        spec_dec(d.minute as int),
        2,
    ) + seq![':'] + spec_zero_pad(spec_dec(d.second as int), 2)
}

/// `YYYY-MM-DD HH:MM:SS`.
pub open spec fn spec_timestamp(d: DateTime) -> Seq<char> {
    spec_date(d) + seq![' '] + spec_time(d)
}

/// Formats the date part; asks for a four-digit year.
pub fn format_date(d: &DateTime) -> (r: String)
    requires
        spec_datetime_wf(*d),
        0 <= d.year <= 9999,
    ensures
        r@ == spec_date(*d),
{
    let y = u64_to_string_padded(d.year as u64, 4);
    let mo = u64_to_string_padded(d.month as u64, 2);
    let da = u64_to_string_padded(d.day as u64, 2);
    let mut r = y;
    r = r.concat("-");
    r = r.concat(mo.as_str());
    r = r.concat("-");
    r = r.concat(da.as_str());
    proof {
        reveal_strlit("-");
        assert(r@ =~= spec_date(*d));
    }
    r
}

/// Formats the full timestamp; asks for a four-digit year.
pub fn format_timestamp(d: &DateTime) -> (r: String)
    requires
        spec_datetime_wf(*d),
        0 <= d.year <= 9999,
    ensures
        r@ == spec_timestamp(*d),
{
    let date = format_date(d);
    let h = u64_to_string_padded(d.hour as u64, 2);
    let mi = u64_to_string_padded(d.minute as u64, 2);
    let s = u64_to_string_padded(d.second as u64, 2);
    let mut r = date;
    r = r.concat(" ");
    r = r.concat(h.as_str());
    r = r.concat(":");
    r = r.concat(mi.as_str());
    r = r.concat(":");
    r = r.concat(s.as_str());
    proof {
        reveal_strlit(" ");
        reveal_strlit(":");
        assert(r@ =~= spec_timestamp(*d));
    }
    r
}

/// The current date as `YYYY-MM-DD`; `None` if the clock reports a year
/// outside 0–9999.
pub fn current_date() -> (r: Option<String>)
    ensures
        r matches Some(s) ==> exists|d: DateTime|
            spec_datetime_wf(d) && 0 <= d.year <= 9999 && s@ == spec_date(d),
{
    let d = now_local();
    if 0 <= d.year && d.year <= 9999 {
        let s = format_date(&d);
        proof {
            assert(spec_datetime_wf(d) && 0 <= d.year <= 9999 && s@ == spec_date(d));
        }
        Option::Some(s)
    } else {
        Option::None
    }
}

/// The current timestamp as `YYYY-MM-DD HH:MM:SS`; `None` if the clock
/// reports a year outside 0–9999.
pub fn current_timestamp() -> (r: Option<String>)
    ensures
        r matches Some(s) ==> exists|d: DateTime|
            spec_datetime_wf(d) && 0 <= d.year <= 9999 && s@ == spec_timestamp(d),
{
    let d = now_local();
    if 0 <= d.year && d.year <= 9999 {
        let s = format_timestamp(&d);
        proof {
            assert(spec_datetime_wf(d) && 0 <= d.year <= 9999 && s@ == spec_timestamp(d));
        }
        Option::Some(s)
    } else {
        Option::None
    }
}

} // verus!

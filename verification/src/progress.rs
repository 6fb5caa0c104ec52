//! Progress-log entries: the timestamped markdown sections appended to the
//! journal.  The journal file itself is appended by the caller, best-effort.

use vstd::prelude::*;
use vstd::string::*;
use crate::clock::{DateTime, current_timestamp, spec_datetime_wf, spec_timestamp};

verus! {

/// One journal section: `## [timestamp]`, then the message.
pub open spec fn spec_log_entry(ts: Seq<char>, msg: Seq<char>) -> Seq<char> {
    "## ["@ + ts + "]\n"@ + msg + "\n"@
}

/// Formats one journal section from a timestamp and a message.
pub fn log_entry(ts: &str, msg: &str) -> (r: String)
    ensures
        r@ == spec_log_entry(ts@, msg@),
{
    let mut r = String::from_str("## [");
    r = r.concat(ts);
    r = r.concat("]\n");
    r = r.concat(msg);
    r = r.concat("\n");
    proof {
        assert(r@ =~= spec_log_entry(ts@, msg@));
    }
    r
}

/// Formats a journal section stamped with the current time; `None` if the
/// clock reports a year outside 0–9999 (the entry is then skipped, as the
/// journal is best-effort).
pub fn log_entry_now(msg: &str) -> (r: Option<String>)
    ensures
        r matches Some(s) ==> exists|d: DateTime|
            spec_datetime_wf(d) && s@ == spec_log_entry(spec_timestamp(d), msg@),
{
    match current_timestamp() {
        Option::Some(ts) => {
            let s = log_entry(ts.as_str(), msg);
            proof {
                let d = choose|d: DateTime|
                    spec_datetime_wf(d) && 0 <= d.year <= 9999 && ts@ == spec_timestamp(d);
                assert(spec_datetime_wf(d) && s@ == spec_log_entry(spec_timestamp(d), msg@));
            }
            Option::Some(s)
        },
        Option::None => Option::None,
    }
}

} // verus!

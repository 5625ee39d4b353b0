//! The local date and time as text, for reports.

use vstd::prelude::*;
use chrono::{Local, SecondsFormat};

verus! {

/// `Local::now`, written out by `DateTime::to_rfc3339_opts` with
/// milliseconds and a numeric offset: the date and time now, in the time
/// zone of the machine, in the RFC 3339 format. The text depends on the
/// clock and on the machine, so nothing is promised of it.
#[verifier::external_body]
pub fn current_local_date_time_string() -> String {
    Local::now().to_rfc3339_opts(SecondsFormat::Millis, false)
}

} // verus!

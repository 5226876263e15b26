use vstd::prelude::*;

use crate::service::Timestamp;

verus! {

/// Relies on chrono's `Local::now`, `DateTime::timestamp` and
/// `FixedOffset::local_minus_utc`: the current wall-clock instant in Unix
/// seconds and the local UTC offset that applies to it. Nothing is promised
/// of the clock's reading; callers state what holds whatever it returns.
#[verifier::external_body]
pub fn now_local() -> Timestamp {
    let now = chrono::Local::now();
    Timestamp { unix_seconds: now.timestamp(), offset_seconds: now.offset().local_minus_utc() }
}

} // verus!

//! The one place where the library reads the time.

use vstd::prelude::*;
use crate::record::Timestamp;

verus! {

/// Reads the current instant in UTC by `chrono::Utc::now`, and takes it
/// apart by `DateTime::timestamp` and `DateTime::timestamp_subsec_nanos`.
/// Nothing is claimed of the result: two readings may come in any order.
/// The call fails only where the system clock stands before 1970.
#[verifier::external_body]
pub(crate) fn utc_now() -> (now: Timestamp) {
    let now = chrono::Utc::now();
    Timestamp { secs: now.timestamp(), nanos: now.timestamp_subsec_nanos() }
}

} // verus!

use crate::models::time::Timestamp;
use vstd::prelude::*;

verus! {

/// `chrono::Utc::now`, read as whole seconds since the Unix epoch
/// (`timestamp`) and the nanoseconds that follow them
/// (`timestamp_subsec_nanos`). What the clock shows cannot be foretold, so
/// nothing is promised of the result.
#[verifier::external_body]
pub(crate) fn clock_now() -> (now: Timestamp) {
    let now = chrono::Utc::now();
    Timestamp { secs: now.timestamp(), nanos: now.timestamp_subsec_nanos() }
}

} // verus!

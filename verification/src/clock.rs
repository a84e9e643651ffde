//! The wall clock, read once per request.

use vstd::prelude::*;

verus! {

/// Relies on chrono::Utc::now and DateTime::timestamp: the number of
/// non-leap seconds since the epoch at the moment of the call. No two
/// calls need agree; callers state what holds for every reading.
#[verifier::external_body]
pub(crate) fn now_timestamp() -> i64 {
    chrono::Utc::now().timestamp()
}

} // verus!

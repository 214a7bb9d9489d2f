use vstd::prelude::*;

use crate::data::Timestamp;

verus! {

/// Relies on chrono::Utc::now and chrono::DateTime::timestamp: the current
/// wall-clock time, as whole seconds since the Unix epoch. The value depends
/// on the moment of the call, so nothing is promised of it; callers state
/// what holds of their result whatever came back.
#[verifier::external_body]
pub(crate) fn now_unix_seconds() -> Timestamp {
    chrono::Utc::now().timestamp()
}

} // verus!

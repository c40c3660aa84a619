//! The one place the library reads the wall clock.

use vstd::prelude::*;

verus! {

/// Relies on `chrono::Utc::now`, read as milliseconds since the Unix
/// epoch.  Nothing is promised of the value: every caller must be correct
/// for an arbitrary reading.
#[verifier::external_body]
pub(crate) fn now_epoch_millis() -> u64 {
    chrono::Utc::now().timestamp_millis() as u64
}

} // verus!

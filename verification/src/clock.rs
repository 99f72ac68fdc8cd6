use vstd::prelude::*;

verus! {

/// `chrono::Utc::now()`, as microseconds since the Unix epoch.
/// Trusted: nothing is stated of the value, which is the wall clock.
#[verifier::external_body]
pub(crate) fn utc_now_micros() -> i64 {
    chrono::Utc::now().timestamp_micros()
}

} // verus!

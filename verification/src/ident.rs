use vstd::prelude::*;

verus! {

/// `uuid::Uuid::now_v7()`, as its 128-bit value.
/// Trusted: nothing is stated of the value, which comes from the clock and a random source.
#[verifier::external_body]
pub(crate) fn new_v7_id() -> u128 {
    uuid::Uuid::now_v7().as_u128()
}

} // verus!

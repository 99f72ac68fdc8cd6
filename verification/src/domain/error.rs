use vstd::prelude::*;

verus! {

/// Why an order refused a state change.
#[derive(Clone, Copy, Debug, PartialEq, Eq, Structural)]
pub enum OrderError {
    InvalidFillBaseQty,
    InvalidFillQuoteQty,
    AlreadyCompleted,
    OverFilled,
    AlreadyCancelled,
    AmendNotAllowed,
    AmendQtyBelowExecuted,
}

} // verus!

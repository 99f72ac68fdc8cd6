use vstd::prelude::*;

use std::time::Duration;

use crate::integration_stress::metrics::CorrelatorSummary;

pub use crate::integration_stress::dispatch::{DispatchSnapshot, PhaseOutcome};

verus! {

/// What waiting for the events of a phase ended with: whether every accepted command was
/// matched in time, and the correlator's summary at that moment.
#[derive(Clone, Debug, Default, PartialEq, Eq)]
pub struct SettleResult {
    pub settled: bool,
    pub summary: CorrelatorSummary,
}

/// The outcome of a run: what was sent, how the server answered, and what came back.
#[derive(Debug)]
pub struct RunReport {
    pub attempted: usize,
    pub dispatch: DispatchSnapshot,
    pub dispatch_elapsed: Duration,
    pub total_elapsed: Duration,
    pub settled: bool,
    pub pacing_lag_events: usize,
    pub pacing_lag: Duration,
    pub pacing_lag_max: Duration,
    pub correlator: CorrelatorSummary,
}

/// The report of a measured phase, its total time and how its events settled.
pub fn into_report(phase: PhaseOutcome, total_elapsed: Duration, settle: SettleResult) -> (r: RunReport)
    ensures
        r.attempted == phase.attempted,
        r.dispatch == phase.dispatch,
        r.dispatch_elapsed == phase.dispatch_elapsed,
        r.total_elapsed == total_elapsed,
        r.settled == settle.settled,
        r.pacing_lag_events == phase.pacing_lag_events,
        r.pacing_lag == phase.pacing_lag,
        r.pacing_lag_max == phase.pacing_lag_max,
        r.correlator == settle.summary,
{
    RunReport {
        attempted: phase.attempted,
        dispatch: phase.dispatch,
        dispatch_elapsed: phase.dispatch_elapsed,
        total_elapsed,
        settled: settle.settled,
        pacing_lag_events: phase.pacing_lag_events,
        pacing_lag: phase.pacing_lag,
        pacing_lag_max: phase.pacing_lag_max,
        correlator: settle.summary,
    }
}

} // verus!

use vstd::prelude::*;

use crate::runtime_stress::config::Scenario;
use crate::runtime_stress::workload::is_workload;

pub use crate::runtime_stress::runner::command_interval;
pub use crate::runtime_stress::workload::{make_symbols, WorkloadGenerator, BASE_SYMBOL};

verus! {

/// How many commands one workload of `scenario` with `sweep_depth` makers holds.
pub open spec fn workload_len(scenario: Scenario, sweep_depth: nat) -> nat {
    match scenario {
        Scenario::CancelMissing | Scenario::PlaceRestingLimit => 1,
        Scenario::FullFillSameLevel | Scenario::MarketQuoteSweep | Scenario::PartialFillRest => sweep_depth + 1,
        Scenario::CancelRestingOrder => 2 * sweep_depth,
        Scenario::AmendDecreaseQty | Scenario::AmendPriceChange => 3,
    }
}

/// How many commands one workload of `scenario` with `sweep_depth` makers holds.
pub fn commands_per_workload(scenario: Scenario, sweep_depth: usize) -> (r: usize)
    requires
        2 * sweep_depth <= usize::MAX,
    ensures
        r == workload_len(scenario, sweep_depth as nat),
{
    match scenario {
        Scenario::CancelMissing | Scenario::PlaceRestingLimit => 1,
        Scenario::FullFillSameLevel | Scenario::MarketQuoteSweep | Scenario::PartialFillRest => sweep_depth + 1,
        Scenario::CancelRestingOrder => 2 * sweep_depth,
        Scenario::AmendDecreaseQty | Scenario::AmendPriceChange => 3,
    }
}

/// Every workload the generator makes has as many commands as `commands_per_workload` says.
pub proof fn law_workload_length(cmds: Seq<crate::engine::command::EngineCommand>, scenario: Scenario, depth: nat, symbol: Seq<char>, first: nat)
    requires
        is_workload(cmds, scenario, depth, symbol, first),
    ensures
        cmds.len() == workload_len(scenario, depth),
{
}

} // verus!

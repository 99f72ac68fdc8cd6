use vstd::prelude::*;

use crate::engine::command::EngineCommand;
use crate::runtime_stress::config::Scenario;
use crate::runtime_stress::workload::{ids_used, is_workload, workload_fits, WorkloadGenerator};

verus! {

/// The time between two commands at `target_commands_per_sec`, in nanoseconds, rounded to
/// the nearest nanosecond (halves up).
pub fn command_interval(target_commands_per_sec: u64) -> (r: u64)
    requires
        target_commands_per_sec > 0,
    ensures
        r == (2_000_000_000int + target_commands_per_sec) / (2 * target_commands_per_sec as int),
{
    let t = target_commands_per_sec as u128;
    let q = (2_000_000_000u128 + t) / (2 * t);
    proof {
        assert(q * 2 <= 2_000_000_000u128 + t) by (nonlinear_arith)
            requires
                t >= 1,
                q == (2_000_000_000u128 + t) / (2 * t),
        ;
    }
    q as u64
}

/// Whether a paced run needs a warm-up phase.
pub fn needs_warmup(warmup_sec: u64) -> (b: bool)
    ensures
        b == (warmup_sec != 0),
{
    warmup_sec != 0
}

/// Whether the measured phase runs: only after a warm-up that completed (a run without
/// warm-up counts as completed).
pub fn runs_measurement(warmup_completed: bool) -> (b: bool)
    ensures
        b == warmup_completed,
{
    warmup_completed
}

/// Whether the engines may be shut down and waited for: only when every phase completed,
/// the measured phase included.
pub fn run_completed(warmup_completed: bool, measurement_completed: Option<bool>) -> (b: bool)
    ensures
        b == (warmup_completed && measurement_completed == Some(true)),
{
    warmup_completed && match measurement_completed {
        Some(c) => c,
        None => false,
    }
}

/// Hands out the commands of successive workloads one at a time, each workload on the next
/// symbol in turn.
pub struct CommandCursor {
    generator: WorkloadGenerator,
    pending_commands: Vec<EngineCommand>,
    pending_symbol: String,
    symbol_index: usize,
}

impl CommandCursor {
    /// The commands of the current workload still to hand out, in order.
    pub closed spec fn pending(&self) -> Seq<EngineCommand> {
        self.pending_commands@.reverse()
    }

    /// The symbol of the current workload.
    pub closed spec fn symbol(&self) -> Seq<char> {
        self.pending_symbol@
    }

    /// How many workloads were started.
    pub closed spec fn workloads_started(&self) -> nat {
        self.symbol_index as nat
    }

    /// The number of the last order id handed out.
    pub closed spec fn issued(&self) -> nat {
        self.generator.issued()
    }

    pub fn new() -> (c: CommandCursor)
        ensures
            c.pending().len() == 0,
            c.symbol() == Seq::<char>::empty(),
            c.workloads_started() == 0,
            c.issued() == 0,
    {
        CommandCursor {
            generator: WorkloadGenerator::new(),
            pending_commands: Vec::new(),
            pending_symbol: String::new(),
            symbol_index: 0,
        }
    }

    /// Whether another workload of `scenario` with `sweep_depth` makers can still be made:
    /// the workload count stays within `usize` and the workload fits (see `workload_fits`).
    pub fn has_room_for(&self, scenario: Scenario, sweep_depth: usize) -> (b: bool)
        ensures
            b == (self.workloads_started() < usize::MAX && workload_fits(self.issued(), scenario, sweep_depth as nat)),
    {
        self.symbol_index < usize::MAX && self.generator.can_make(scenario, sweep_depth)
    }

    /// The next command and its symbol. When the current workload is used up, a new one of
    /// `scenario` is made on the next symbol in turn; `None` when that workload is empty.
    pub fn next_command(&mut self, symbols: &Vec<String>, scenario: Scenario, sweep_depth: usize) -> (r: Option<(String, EngineCommand)>)
        requires
            symbols@.len() > 0,
            old(self).workloads_started() < usize::MAX,
            workload_fits(old(self).issued(), scenario, sweep_depth as nat),
        ensures
            old(self).pending().len() > 0 ==> {
                &&& r matches Some((s, c)) && s@ == old(self).symbol() && c == old(self).pending()[0]
                &&& final(self).pending() == old(self).pending().drop_first()
                &&& final(self).symbol() == old(self).symbol()
                &&& final(self).workloads_started() == old(self).workloads_started()
                &&& final(self).issued() == old(self).issued()
            },
            old(self).pending().len() == 0 ==> {
                let sym = symbols@[(old(self).workloads_started() % symbols@.len() as nat) as int]@;
                let w = final(self).pending();
                &&& final(self).symbol() == sym
                &&& final(self).workloads_started() == old(self).workloads_started() + 1
                &&& final(self).issued() == old(self).issued() + ids_used(scenario, sweep_depth as nat)
                &&& match r {
                    None => exists|all: Seq<EngineCommand>|
                        is_workload(all, scenario, sweep_depth as nat, sym, old(self).issued()) && all.len() == 0
                            && w.len() == 0,
                    Some((s, c)) => s@ == sym && exists|all: Seq<EngineCommand>|
                        is_workload(all, scenario, sweep_depth as nat, sym, old(self).issued()) && all.len() > 0
                            && c == all[0] && w == all.drop_first(),
                }
            },
    {
        if self.pending_commands.len() == 0 {
            let k = self.symbol_index % symbols.len();
            self.symbol_index = self.symbol_index + 1;
            self.pending_symbol = symbols[k].clone();
            let mut commands = self.generator.make_workload(scenario, sweep_depth, self.pending_symbol.as_str());
            let ghost all = commands@;
            let mut reversed: Vec<EngineCommand> = Vec::new();
            while commands.len() > 0
                invariant
                    all.len() == commands@.len() + reversed@.len(),
                    commands@ == all.take(commands@.len() as int),
                    reversed@ == all.skip(commands@.len() as int).reverse(),
                decreases commands@.len(),
            {
                let ghost n = commands@.len();
                let c = commands.pop().unwrap();
                reversed.push(c);
                assert(commands@ =~= all.take(n - 1));
                assert(reversed@ =~= all.skip(n - 1).reverse());
            }
            assert(all.skip(0) =~= all);
            self.pending_commands = reversed;
        }
        let ghost before = self.pending_commands@;
        match self.pending_commands.pop() {
            Some(c) => {
                assert(self.pending_commands@.reverse() =~= before.reverse().drop_first());
                Some((self.pending_symbol.clone(), c))
            },
            None => None,
        }
    }
}

} // verus!

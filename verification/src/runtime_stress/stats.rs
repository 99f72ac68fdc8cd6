use vstd::prelude::*;

use std::ops::Sub;
use std::time::Duration;

use vstd::std_specs::ops::SubSpecImpl;

use crate::engine::dispatcher::DispatchError;
use crate::engine::result::{EngineResult, EngineResultBody};

verus! {

/// How the dispatcher answered the commands of a phase.
#[derive(Clone, Copy, Debug, Default, PartialEq, Eq, Structural)]
pub struct DispatchStats {
    pub accepted: usize,
    pub channel_full: usize,
    pub unknown_symbol: usize,
    pub engine_stopped: usize,
}

impl DispatchStats {
    /// The commands refused, whatever the reason.
    pub fn rejected(self) -> (r: usize)
        requires
            self.channel_full + self.unknown_symbol + self.engine_stopped <= usize::MAX,
        ensures
            r == self.channel_full + self.unknown_symbol + self.engine_stopped,
    {
        self.channel_full + self.unknown_symbol + self.engine_stopped
    }

    /// Counts one dispatch answer; a publisher found unhealthy counts as a stopped engine.
    pub fn count(&mut self, answer: &Result<(), DispatchError>)
        requires
            old(self).accepted < usize::MAX,
            old(self).channel_full < usize::MAX,
            old(self).unknown_symbol < usize::MAX,
            old(self).engine_stopped < usize::MAX,
        ensures
            *final(self) == match answer {
                Ok(()) => DispatchStats { accepted: (old(self).accepted + 1) as usize, ..*old(self) },
                Err(DispatchError::ChannelFull { .. }) => DispatchStats {
                    channel_full: (old(self).channel_full + 1) as usize,
                    ..*old(self)
                },
                Err(DispatchError::UnknownSymbol { .. }) => DispatchStats {
                    unknown_symbol: (old(self).unknown_symbol + 1) as usize,
                    ..*old(self)
                },
                Err(DispatchError::EngineStopped { .. }) | Err(DispatchError::PublisherUnhealthy { .. }) => DispatchStats {
                    engine_stopped: (old(self).engine_stopped + 1) as usize,
                    ..*old(self)
                },
            },
    {
        match answer {
            Ok(()) => self.accepted = self.accepted + 1,
            Err(DispatchError::ChannelFull { .. }) => self.channel_full = self.channel_full + 1,
            Err(DispatchError::UnknownSymbol { .. }) => self.unknown_symbol = self.unknown_symbol + 1,
            Err(DispatchError::EngineStopped { .. }) => self.engine_stopped = self.engine_stopped + 1,
            Err(DispatchError::PublisherUnhealthy { .. }) => self.engine_stopped = self.engine_stopped + 1,
        }
    }
}

/// Counters of the results a publisher has seen. They wrap around at `usize::MAX`, as
/// atomic counters do.
#[derive(Clone, Copy, Debug, Default, PartialEq, Eq, Structural)]
pub struct ResultStats {
    published: usize,
    place_results: usize,
    cancel_results: usize,
    amend_results: usize,
    trades: usize,
    maker_updates: usize,
}

/// The counters of a `ResultStats` at one moment.
#[derive(Clone, Copy, Debug, Default, PartialEq, Eq, Structural)]
pub struct ResultStatsSnapshot {
    pub published: usize,
    pub place_results: usize,
    pub cancel_results: usize,
    pub amend_results: usize,
    pub trades: usize,
    pub maker_updates: usize,
}

impl ResultStats {
    /// The counters as they stand.
    pub closed spec fn view_counts(&self) -> ResultStatsSnapshot {
        ResultStatsSnapshot {
            published: self.published,
            place_results: self.place_results,
            cancel_results: self.cancel_results,
            amend_results: self.amend_results,
            trades: self.trades,
            maker_updates: self.maker_updates,
        }
    }

    /// All counters at zero.
    pub fn new() -> (s: ResultStats)
        ensures
            s.view_counts() == (ResultStatsSnapshot {
                published: 0,
                place_results: 0,
                cancel_results: 0,
                amend_results: 0,
                trades: 0,
                maker_updates: 0,
            }),
    {
        ResultStats { published: 0, place_results: 0, cancel_results: 0, amend_results: 0, trades: 0, maker_updates: 0 }
    }

    /// Counts one published result.
    pub fn add_published(&mut self)
        ensures
            final(self).view_counts() == (ResultStatsSnapshot {
                published: old(self).view_counts().published.wrapping_add(1),
                ..old(self).view_counts()
            }),
    {
        self.published = self.published.wrapping_add(1);
    }

    /// Counts one placement result with its trades and the makers it updated.
    pub fn add_place_result(&mut self, trades: usize, maker_updates: usize)
        ensures
            final(self).view_counts() == (ResultStatsSnapshot {
                place_results: old(self).view_counts().place_results.wrapping_add(1),
                trades: old(self).view_counts().trades.wrapping_add(trades),
                maker_updates: old(self).view_counts().maker_updates.wrapping_add(maker_updates),
                ..old(self).view_counts()
            }),
    {
        self.place_results = self.place_results.wrapping_add(1);
        self.trades = self.trades.wrapping_add(trades);
        self.maker_updates = self.maker_updates.wrapping_add(maker_updates);
    }

    /// Counts one cancel result.
    pub fn add_cancel_result(&mut self)
        ensures
            final(self).view_counts() == (ResultStatsSnapshot {
                cancel_results: old(self).view_counts().cancel_results.wrapping_add(1),
                ..old(self).view_counts()
            }),
    {
        self.cancel_results = self.cancel_results.wrapping_add(1);
    }

    /// Counts one amend result.
    pub fn add_amend_result(&mut self)
        ensures
            final(self).view_counts() == (ResultStatsSnapshot {
                amend_results: old(self).view_counts().amend_results.wrapping_add(1),
                ..old(self).view_counts()
            }),
    {
        self.amend_results = self.amend_results.wrapping_add(1);
    }

    /// Counts one published result by its kind: a placement with its trades and updated
    /// makers, a cancel, or an amendment.
    pub fn count_result(&mut self, result: &EngineResult)
        ensures
            final(self).view_counts() == match result.body {
                EngineResultBody::Place(p) => ResultStatsSnapshot {
                    published: old(self).view_counts().published.wrapping_add(1),
                    place_results: old(self).view_counts().place_results.wrapping_add(1),
                    trades: old(self).view_counts().trades.wrapping_add(p.trades@.len() as usize),
                    maker_updates: old(self).view_counts().maker_updates.wrapping_add(
                        p.updated_makers@.len() as usize,
                    ),
                    ..old(self).view_counts()
                },
                EngineResultBody::Cancel(_) => ResultStatsSnapshot {
                    published: old(self).view_counts().published.wrapping_add(1),
                    cancel_results: old(self).view_counts().cancel_results.wrapping_add(1),
                    ..old(self).view_counts()
                },
                EngineResultBody::Amend(_) => ResultStatsSnapshot {
                    published: old(self).view_counts().published.wrapping_add(1),
                    amend_results: old(self).view_counts().amend_results.wrapping_add(1),
                    ..old(self).view_counts()
                },
            },
    {
        self.add_published();
        match &result.body {
            EngineResultBody::Place(p) => self.add_place_result(p.trades.len(), p.updated_makers.len()),
            EngineResultBody::Cancel(_) => self.add_cancel_result(),
            EngineResultBody::Amend(_) => self.add_amend_result(),
        }
    }

    /// The results published so far.
    pub fn published(&self) -> (r: usize)
        ensures
            r == self.view_counts().published,
    {
        self.published
    }

    /// All counters at this moment.
    pub fn snapshot(&self) -> (r: ResultStatsSnapshot)
        ensures
            r == self.view_counts(),
    {
        ResultStatsSnapshot {
            published: self.published,
            place_results: self.place_results,
            cancel_results: self.cancel_results,
            amend_results: self.amend_results,
            trades: self.trades,
            maker_updates: self.maker_updates,
        }
    }
}

/// Counter by counter, what `later` counted beyond `earlier`, never below zero.
pub open spec fn snapshot_difference(later: ResultStatsSnapshot, earlier: ResultStatsSnapshot) -> ResultStatsSnapshot {
    ResultStatsSnapshot {
        published: later.published.saturating_sub(earlier.published),
        place_results: later.place_results.saturating_sub(earlier.place_results),
        cancel_results: later.cancel_results.saturating_sub(earlier.cancel_results),
        amend_results: later.amend_results.saturating_sub(earlier.amend_results),
        trades: later.trades.saturating_sub(earlier.trades),
        maker_updates: later.maker_updates.saturating_sub(earlier.maker_updates),
    }
}

impl Sub for ResultStatsSnapshot {
    type Output = ResultStatsSnapshot;

    /// Counter by counter, what `self` counted beyond `rhs`, never below zero.
    fn sub(self, rhs: ResultStatsSnapshot) -> (r: ResultStatsSnapshot) {
        ResultStatsSnapshot {
            published: self.published.saturating_sub(rhs.published),
            place_results: self.place_results.saturating_sub(rhs.place_results),
            cancel_results: self.cancel_results.saturating_sub(rhs.cancel_results),
            amend_results: self.amend_results.saturating_sub(rhs.amend_results),
            trades: self.trades.saturating_sub(rhs.trades),
            maker_updates: self.maker_updates.saturating_sub(rhs.maker_updates),
        }
    }
}

impl SubSpecImpl for ResultStatsSnapshot {
    open spec fn obeys_sub_spec() -> bool {
        true
    }

    open spec fn sub_req(self, rhs: ResultStatsSnapshot) -> bool {
        true
    }

    open spec fn sub_spec(self, rhs: ResultStatsSnapshot) -> ResultStatsSnapshot {
        snapshot_difference(self, rhs)
    }
}

/// What one phase of a run did. Elapsed times are measured by the runner.
#[derive(Clone, Copy, Debug, Default, PartialEq, Eq)]
pub struct PhaseStats {
    pub attempted_commands: usize,
    pub dispatch: DispatchStats,
    pub result: ResultStatsSnapshot,
    pub completed: bool,
    pub dispatch_elapsed: Duration,
    pub total_elapsed: Duration,
    pub pacing_lag_events: usize,
    pub pacing_lag: Duration,
}

} // verus!

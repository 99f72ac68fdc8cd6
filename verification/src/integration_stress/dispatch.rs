use vstd::prelude::*;

use std::time::Duration;

use crate::integration_stress::client::SendOutcome;

verus! {

/// How the server answered the commands of a phase.
#[derive(Clone, Copy, Debug, Default, PartialEq, Eq, Structural)]
pub struct DispatchSnapshot {
    pub accepted: u64,
    pub rejected: u64,
    pub resource_exhausted: u64,
    pub error: u64,
}

/// Counts the answers of a phase.
#[derive(Clone, Copy, Debug, Default)]
pub struct DispatchCounts {
    counts: DispatchSnapshot,
}

impl DispatchCounts {
    pub closed spec fn view_counts(&self) -> DispatchSnapshot {
        self.counts
    }

    pub fn new() -> (c: DispatchCounts)
        ensures
            c.view_counts() == (DispatchSnapshot { accepted: 0, rejected: 0, resource_exhausted: 0, error: 0 }),
    {
        DispatchCounts { counts: DispatchSnapshot { accepted: 0, rejected: 0, resource_exhausted: 0, error: 0 } }
    }

    /// Counts one answer under its kind (wrapping around at `u64::MAX`, as atomic counters do).
    pub fn count(&mut self, outcome: SendOutcome)
        ensures
            final(self).view_counts() == match outcome {
                SendOutcome::Submitted => DispatchSnapshot {
                    accepted: old(self).view_counts().accepted.wrapping_add(1),
                    ..old(self).view_counts()
                },
                SendOutcome::Rejected => DispatchSnapshot {
                    rejected: old(self).view_counts().rejected.wrapping_add(1),
                    ..old(self).view_counts()
                },
                SendOutcome::ResourceExhausted => DispatchSnapshot {
                    resource_exhausted: old(self).view_counts().resource_exhausted.wrapping_add(1),
                    ..old(self).view_counts()
                },
                SendOutcome::Error => DispatchSnapshot {
                    error: old(self).view_counts().error.wrapping_add(1),
                    ..old(self).view_counts()
                },
            },
    {
        match outcome {
            SendOutcome::Submitted => self.counts.accepted = self.counts.accepted.wrapping_add(1),
            SendOutcome::Rejected => self.counts.rejected = self.counts.rejected.wrapping_add(1),
            SendOutcome::ResourceExhausted => self.counts.resource_exhausted = self.counts.resource_exhausted.wrapping_add(1),
            SendOutcome::Error => self.counts.error = self.counts.error.wrapping_add(1),
        }
    }

    /// The counters at this moment.
    pub fn snapshot(&self) -> (r: DispatchSnapshot)
        ensures
            r == self.view_counts(),
    {
        self.counts
    }
}

/// What one dispatch phase did. Elapsed times and lags are measured by the runner.
#[derive(Clone, Copy, Debug, Default, PartialEq, Eq)]
pub struct PhaseOutcome {
    pub attempted: usize,
    pub dispatch: DispatchSnapshot,
    pub dispatch_elapsed: Duration,
    pub pacing_lag_events: usize,
    pub pacing_lag: Duration,
    pub pacing_lag_max: Duration,
}

/// How far a paced run fell behind its schedule. Times are monotonic clock readings in
/// nanoseconds.
#[derive(Clone, Copy, Debug, Default, PartialEq, Eq, Structural)]
pub struct PacingLag {
    pub events: usize,
    pub total_ns: u64,
    pub max_ns: u64,
}

impl PacingLag {
    /// Records the lag of a send made at `now_ns` that was due at `next_tick_ns`. The first
    /// send (nothing attempted yet) and a send on or before its tick record nothing.
    pub fn record(&mut self, now_ns: u64, next_tick_ns: u64, attempted: usize)
        requires
            attempted != 0 && now_ns > next_tick_ns ==> old(self).events < usize::MAX
                && old(self).total_ns + (now_ns - next_tick_ns) <= u64::MAX,
        ensures
            *final(self) == if attempted == 0 || now_ns <= next_tick_ns {
                *old(self)
            } else {
                PacingLag {
                    events: (old(self).events + 1) as usize,
                    total_ns: (old(self).total_ns + (now_ns - next_tick_ns)) as u64,
                    max_ns: if now_ns - next_tick_ns > old(self).max_ns {
                        (now_ns - next_tick_ns) as u64
                    } else {
                        old(self).max_ns
                    },
                }
            },
    {
        if attempted == 0 || now_ns <= next_tick_ns {
            return;
        }
        let lag = now_ns - next_tick_ns;
        self.events = self.events + 1;
        self.total_ns = self.total_ns + lag;
        if lag > self.max_ns {
            self.max_ns = lag;
        }
    }
}


/// The schedule of a paced phase: one tick per command, `interval_ns` apart from the start,
/// with the lag of sends that came after their tick. Times are nanoseconds since the phase
/// started.
#[derive(Clone, Copy, Debug, PartialEq, Eq, Structural)]
pub struct Pacer {
    pub next_tick_ns: u64,
    pub interval_ns: u64,
    pub attempted: usize,
    pub lag: PacingLag,
}

impl Pacer {
    /// The schedule at the start of a phase: first tick at once, nothing sent.
    pub fn new(interval_ns: u64) -> (p: Pacer)
        ensures
            p == (Pacer {
                next_tick_ns: 0,
                interval_ns,
                attempted: 0,
                lag: PacingLag { events: 0, total_ns: 0, max_ns: 0 },
            }),
    {
        Pacer { next_tick_ns: 0, interval_ns, attempted: 0, lag: PacingLag { events: 0, total_ns: 0, max_ns: 0 } }
    }

    /// Before the next send at `now_ns`: how long to wait for its tick; when the tick has
    /// passed, nothing to wait and the lag is recorded (the first send records none).
    pub fn before_send(&mut self, now_ns: u64) -> (wait_ns: u64)
        requires
            old(self).attempted != 0 && now_ns > old(self).next_tick_ns ==> old(self).lag.events < usize::MAX
                && old(self).lag.total_ns + (now_ns - old(self).next_tick_ns) <= u64::MAX,
        ensures
            now_ns < old(self).next_tick_ns ==> wait_ns == old(self).next_tick_ns - now_ns && *final(self)
                == *old(self),
            now_ns >= old(self).next_tick_ns ==> wait_ns == 0 && final(self).next_tick_ns == old(self).next_tick_ns
                && final(self).interval_ns == old(self).interval_ns && final(self).attempted
                == old(self).attempted && final(self).lag == (if old(self).attempted == 0 || now_ns
                == old(self).next_tick_ns {
                old(self).lag
            } else {
                PacingLag {
                    events: (old(self).lag.events + 1) as usize,
                    total_ns: (old(self).lag.total_ns + (now_ns - old(self).next_tick_ns)) as u64,
                    max_ns: if now_ns - old(self).next_tick_ns > old(self).lag.max_ns {
                        (now_ns - old(self).next_tick_ns) as u64
                    } else {
                        old(self).lag.max_ns
                    },
                }
            }),
    {
        if now_ns < self.next_tick_ns {
            return self.next_tick_ns - now_ns;
        }
        self.lag.record(now_ns, self.next_tick_ns, self.attempted);
        0
    }

    /// After sending `commands` commands: they count as attempted and the next tick moves
    /// one interval per command later.
    pub fn after_send(&mut self, commands: usize)
        requires
            old(self).attempted + commands <= usize::MAX,
            old(self).next_tick_ns + old(self).interval_ns * commands <= u64::MAX,
        ensures
            *final(self) == (Pacer {
                next_tick_ns: (old(self).next_tick_ns + old(self).interval_ns * commands) as u64,
                attempted: (old(self).attempted + commands) as usize,
                ..*old(self)
            }),
    {
        proof {
            assert(self.interval_ns * commands <= u64::MAX) by (nonlinear_arith)
                requires
                    self.next_tick_ns + self.interval_ns * commands <= u64::MAX,
                    self.next_tick_ns >= 0,
            ;
        }
        self.attempted = self.attempted + commands;
        self.next_tick_ns = self.next_tick_ns + self.interval_ns * (commands as u64);
    }
}

} // verus!

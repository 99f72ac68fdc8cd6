use vstd::prelude::*;

use std::collections::{HashMap, VecDeque};

use crate::sample_stats::{sort_ascending, is_sorted, mean_of, nearest_rank, percentile, sample_sum};

verus! {

broadcast use vstd::std_specs::hash::group_hash_axioms;

/// Latency statistics of one phase, in microseconds.
#[derive(Clone, Copy, Debug, Default, PartialEq, Eq, Structural)]
pub struct LatencySummary {
    pub count: u64,
    pub min_us: u64,
    pub mean_us: u64,
    pub p50_us: u64,
    pub p95_us: u64,
    pub p99_us: u64,
    pub max_us: u64,
}

impl LatencySummary {
    /// The statistics of samples sorted in ascending order: first and last sample, mean
    /// rounded down, and nearest-rank percentiles (`p / 100 * (count - 1)` rounded half up).
    /// No samples give all zeros.
    pub fn from_sorted(sorted: &[u64]) -> (r: LatencySummary)
        ensures
            sorted@.len() == 0 ==> r == (LatencySummary { count: 0, min_us: 0, mean_us: 0, p50_us: 0, p95_us: 0, p99_us: 0, max_us: 0 }),
            sorted@.len() > 0 ==> {
                let s = sorted@;
                let n = s.len();
                &&& r.count == n
                &&& r.min_us == s[0]
                &&& r.mean_us == sample_sum(s) / (n as int)
                &&& r.p50_us == s[nearest_rank(n, 500)]
                &&& r.p95_us == s[nearest_rank(n, 950)]
                &&& r.p99_us == s[nearest_rank(n, 990)]
                &&& r.max_us == s[n - 1]
            },
    {
        if sorted.len() == 0 {
            return LatencySummary { count: 0, min_us: 0, mean_us: 0, p50_us: 0, p95_us: 0, p99_us: 0, max_us: 0 };
        }
        LatencySummary {
            count: sorted.len() as u64,
            min_us: sorted[0],
            mean_us: mean_of(sorted),
            p50_us: percentile(sorted, 500),
            p95_us: percentile(sorted, 950),
            p99_us: percentile(sorted, 990),
            max_us: sorted[sorted.len() - 1],
        }
    }
}


/// The queues of a map of queues, as sequences.
pub open spec fn queues(m: Map<u128, VecDeque<u64>>) -> Map<u128, Seq<u64>> {
    Map::new(|k: u128| m.contains_key(k), |k: u128| m[k]@)
}

/// The times waiting under `id`, earliest first (none when `id` has no queue).
pub open spec fn waiting(m: Map<u128, Seq<u64>>, id: u128) -> Seq<u64> {
    if m.contains_key(id) {
        m[id]
    } else {
        Seq::empty()
    }
}

/// `m` with the earliest time under `id` taken out; a queue left empty is dropped.
pub open spec fn popped(m: Map<u128, Seq<u64>>, id: u128) -> Map<u128, Seq<u64>> {
    if waiting(m, id).len() <= 1 {
        m.remove(id)
    } else {
        m.insert(id, waiting(m, id).drop_first())
    }
}

/// `m` with `at` queued last under `id`.
pub open spec fn pushed(m: Map<u128, Seq<u64>>, id: u128, at: u64) -> Map<u128, Seq<u64>> {
    m.insert(id, waiting(m, id).push(at))
}

/// Takes the earliest time queued under `id`, dropping the queue when it is left empty.
fn pop_waiting(map: &mut HashMap<u128, VecDeque<u64>>, id: u128) -> (r: Option<u64>)
    ensures
        queues(final(map)@) == popped(queues(old(map)@), id),
        r == (if waiting(queues(old(map)@), id).len() > 0 {
            Some(waiting(queues(old(map)@), id)[0])
        } else {
            None
        }),
{
    let ghost before = queues(map@);
    match map.remove(&id) {
        Some(mut queue) => {
            let value = queue.pop_front();
            if queue.len() > 0 {
                map.insert(id, queue);
                assert(queues(map@) =~= popped(before, id));
            } else {
                assert(queues(map@) =~= popped(before, id));
            }
            value
        },
        None => {
            assert(queues(map@) =~= popped(before, id));
            None
        },
    }
}

/// Queues `at` last under `id`.
fn push_waiting(map: &mut HashMap<u128, VecDeque<u64>>, id: u128, at: u64)
    ensures
        queues(final(map)@) == pushed(queues(old(map)@), id, at),
{
    let ghost before = queues(map@);
    let mut queue = match map.remove(&id) {
        Some(q) => q,
        None => VecDeque::new(),
    };
    queue.push_back(at);
    map.insert(id, queue);
    assert(queues(map@) =~= pushed(before, id, at));
}

/// Matches the time each accepted command was dispatched with the time its result was
/// published, by order id and in arrival order per order id (a workload reuses an order id
/// for place, amend and cancel). Either side may come first. Times are monotonic clock
/// readings in microseconds.
#[derive(Debug, Default)]
pub struct LatencyCorrelator {
    pending_sends: HashMap<u128, VecDeque<u64>>,
    pending_recvs: HashMap<u128, VecDeque<u64>>,
    latencies_us: Vec<u64>,
}

impl LatencyCorrelator {
    /// Dispatches waiting for their result: per order id, their times in arrival order.
    pub closed spec fn sends(&self) -> Map<u128, Seq<u64>> {
        queues(self.pending_sends@)
    }

    /// Results waiting for their dispatch: per order id, their times in arrival order.
    pub closed spec fn recvs(&self) -> Map<u128, Seq<u64>> {
        queues(self.pending_recvs@)
    }

    /// The latency samples gathered in this phase, in match order.
    pub closed spec fn latencies(&self) -> Seq<u64> {
        self.latencies_us@
    }

    pub fn new() -> (c: LatencyCorrelator)
        ensures
            c.sends() == Map::<u128, Seq<u64>>::empty(),
            c.recvs() == Map::<u128, Seq<u64>>::empty(),
            c.latencies().len() == 0,
    {
        let c = LatencyCorrelator { pending_sends: HashMap::new(), pending_recvs: HashMap::new(), latencies_us: Vec::new() };
        assert(c.sends() =~= Map::<u128, Seq<u64>>::empty());
        assert(c.recvs() =~= Map::<u128, Seq<u64>>::empty());
        c
    }

    /// Records that the command about `order_id` was accepted at `at_us`. The earliest
    /// result waiting for that order id is matched with it; otherwise the dispatch waits.
    pub fn on_sent(&mut self, order_id: u128, at_us: u64)
        ensures
            final(self).recvs() == popped(old(self).recvs(), order_id),
            ({
                let q = waiting(old(self).recvs(), order_id);
                &&& q.len() > 0 ==> final(self).sends() == old(self).sends() && final(self).latencies()
                    == old(self).latencies().push(q[0].saturating_sub(at_us))
                &&& q.len() == 0 ==> final(self).sends() == pushed(old(self).sends(), order_id, at_us)
                    && final(self).latencies() == old(self).latencies()
            }),
    {
        match pop_waiting(&mut self.pending_recvs, order_id) {
            Some(recv_at) => {
                self.latencies_us.push(recv_at.saturating_sub(at_us));
            },
            None => {
                push_waiting(&mut self.pending_sends, order_id, at_us);
            },
        }
    }

    /// Records that the result about `order_id` was published at `at_us`. The earliest
    /// dispatch waiting for that order id is matched with it; otherwise the result waits.
    pub fn on_recv(&mut self, order_id: u128, at_us: u64)
        ensures
            final(self).sends() == popped(old(self).sends(), order_id),
            ({
                let q = waiting(old(self).sends(), order_id);
                &&& q.len() > 0 ==> final(self).recvs() == old(self).recvs() && final(self).latencies()
                    == old(self).latencies().push(at_us.saturating_sub(q[0]))
                &&& q.len() == 0 ==> final(self).recvs() == pushed(old(self).recvs(), order_id, at_us)
                    && final(self).latencies() == old(self).latencies()
            }),
    {
        match pop_waiting(&mut self.pending_sends, order_id) {
            Some(sent_at) => {
                self.latencies_us.push(at_us.saturating_sub(sent_at));
            },
            None => {
                push_waiting(&mut self.pending_recvs, order_id, at_us);
            },
        }
    }

    /// The statistics of the samples gathered so far, after which everything is forgotten,
    /// unmatched dispatches and results included, so that phases do not mix.
    pub fn take_summary(&mut self) -> (r: LatencySummary)
        ensures
            final(self).sends() == Map::<u128, Seq<u64>>::empty(),
            final(self).recvs() == Map::<u128, Seq<u64>>::empty(),
            final(self).latencies().len() == 0,
            exists|sorted: Seq<u64>|
                is_sorted(sorted) && sorted.to_multiset() == old(self).latencies().to_multiset() && r
                    == summary_of(sorted),
    {
        let mut samples: Vec<u64> = Vec::new();
        std::mem::swap(&mut samples, &mut self.latencies_us);
        sort_ascending(&mut samples);
        self.pending_sends.clear();
        self.pending_recvs.clear();
        assert(self.sends() =~= Map::<u128, Seq<u64>>::empty());
        assert(self.recvs() =~= Map::<u128, Seq<u64>>::empty());
        LatencySummary::from_sorted(samples.as_slice())
    }
}

/// The statistics `from_sorted` gives for `s`.
pub open spec fn summary_of(s: Seq<u64>) -> LatencySummary {
    if s.len() == 0 {
        LatencySummary { count: 0, min_us: 0, mean_us: 0, p50_us: 0, p95_us: 0, p99_us: 0, max_us: 0 }
    } else {
        LatencySummary {
            count: s.len() as u64,
            min_us: s[0],
            mean_us: (sample_sum(s) / (s.len() as int)) as u64,
            p50_us: s[nearest_rank(s.len(), 500)],
            p95_us: s[nearest_rank(s.len(), 950)],
            p99_us: s[nearest_rank(s.len(), 990)],
            max_us: s[s.len() - 1],
        }
    }
}

} // verus!

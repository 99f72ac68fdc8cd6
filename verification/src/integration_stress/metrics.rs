use vstd::prelude::*;

use crate::sample_stats::{sort_ascending, is_sorted, mean_of, nearest_rank, percentile, sample_sum};
use crate::text::str_eq;

verus! {

/// Latency statistics, in microseconds.
#[derive(Clone, Copy, Debug, Default, PartialEq, Eq, Structural)]
pub struct LatencySummary {
    pub count: u64,
    pub min_us: u64,
    pub p50_us: u64,
    pub p90_us: u64,
    pub p99_us: u64,
    pub p999_us: u64,
    pub max_us: u64,
    pub mean_us: u64,
}

/// The statistics of samples sorted in ascending order: first and last sample, mean rounded
/// down, and nearest-rank percentiles (`p / 100 * (count - 1)` rounded half up); all zeros
/// for no samples.
pub open spec fn latency_of(s: Seq<u64>) -> LatencySummary {
    if s.len() == 0 {
        LatencySummary { count: 0, min_us: 0, p50_us: 0, p90_us: 0, p99_us: 0, p999_us: 0, max_us: 0, mean_us: 0 }
    } else {
        LatencySummary {
            count: s.len() as u64,
            min_us: s[0],
            p50_us: s[nearest_rank(s.len(), 500)],
            p90_us: s[nearest_rank(s.len(), 900)],
            p99_us: s[nearest_rank(s.len(), 990)],
            p999_us: s[nearest_rank(s.len(), 999)],
            max_us: s[s.len() - 1],
            mean_us: (sample_sum(s) / (s.len() as int)) as u64,
        }
    }
}

impl LatencySummary {
    /// The statistics of samples sorted in ascending order.
    pub fn from_sorted(sorted: &[u64]) -> (r: LatencySummary)
        ensures
            r == latency_of(sorted@),
    {
        if sorted.len() == 0 {
            return LatencySummary { count: 0, min_us: 0, p50_us: 0, p90_us: 0, p99_us: 0, p999_us: 0, max_us: 0, mean_us: 0 };
        }
        LatencySummary {
            count: sorted.len() as u64,
            min_us: sorted[0],
            p50_us: percentile(sorted, 500),
            p90_us: percentile(sorted, 900),
            p99_us: percentile(sorted, 990),
            p999_us: percentile(sorted, 999),
            max_us: sorted[sorted.len() - 1],
            mean_us: mean_of(sorted),
        }
    }
}

/// The statistics of unsorted samples: those of the same samples in ascending order.
pub fn summarize(samples: &Vec<u64>) -> (r: LatencySummary)
    ensures
        exists|sorted: Seq<u64>|
            is_sorted(sorted) && sorted.to_multiset() == samples@.to_multiset() && r == latency_of(sorted),
{
    let mut sorted: Vec<u64> = Vec::new();
    let mut i: usize = 0;
    while i < samples.len()
        invariant
            0 <= i <= samples@.len(),
            sorted@ == samples@.take(i as int),
        decreases samples@.len() - i,
    {
        sorted.push(samples[i]);
        i = i + 1;
        assert(sorted@ =~= samples@.take(i as int));
    }
    assert(samples@.take(samples@.len() as int) =~= samples@);
    sort_ascending(&mut sorted);
    LatencySummary::from_sorted(sorted.as_slice())
}

/// A notice that a command was accepted, sent by the dispatcher to the correlator. The
/// time is a monotonic clock reading in microseconds.
#[derive(Clone, Debug)]
pub struct SentNotice {
    pub order_id: String,
    pub sent_at_us: u64,
}

/// `i` is the first position of `s` whose order id is `id`.
pub open spec fn first_position(s: Seq<(Seq<char>, u64)>, id: Seq<char>, i: int) -> bool {
    &&& 0 <= i < s.len()
    &&& s[i].0 == id
    &&& forall|j: int| 0 <= j < i ==> s[j].0 != id
}

/// Some position of `s` has order id `id`.
pub open spec fn holds_id(s: Seq<(Seq<char>, u64)>, id: Seq<char>) -> bool {
    exists|i: int| 0 <= i < s.len() && s[i].0 == id
}

/// The counts and latencies a correlator has gathered.
#[derive(Clone, Debug, Default, PartialEq, Eq)]
pub struct CorrelatorSummary {
    /// Accepted sends reported to the correlator.
    pub sent: u64,
    /// Events received, duplicates included.
    pub received: u64,
    /// Distinct event ids received.
    pub unique: u64,
    /// Events received again under an event id already seen.
    pub duplicates: u64,
    /// Sends matched with an event, each giving one latency sample.
    pub matched: u64,
    /// Sends still waiting for their event (suspected losses).
    pub missing: u64,
    /// Events still waiting for their send.
    pub unmatched_recv: u64,
    /// Send-to-event latency.
    pub latency: LatencySummary,
}

/// `new` is `old` after an accepted send of `order_id` at `sent_at`: the earliest event
/// waiting for that order id is matched with it, giving the latency from send to event
/// (zero if the event is stamped earlier); with none waiting, the send waits for its event.
pub open spec fn sent_applied(old: CorrelatorState, new: CorrelatorState, order_id: Seq<char>, sent_at: u64) -> bool {
    &&& new.sent_count() == old.sent_count() + 1
    &&& new.received_count() == old.received_count()
    &&& new.duplicate_count() == old.duplicate_count()
    &&& new.seen() == old.seen()
    &&& holds_id(old.recvs(), order_id) ==> {
        let i = choose|i: int| first_position(old.recvs(), order_id, i);
        &&& first_position(old.recvs(), order_id, i)
        &&& new.recvs() == old.recvs().remove(i)
        &&& new.sends() == old.sends()
        &&& new.latencies() == old.latencies().push(old.recvs()[i].1.saturating_sub(sent_at))
        &&& new.matched_count() == old.matched_count() + 1
    }
    &&& !holds_id(old.recvs(), order_id) ==> {
        &&& new.sends() == old.sends().push((order_id, sent_at))
        &&& new.recvs() == old.recvs()
        &&& new.latencies() == old.latencies()
        &&& new.matched_count() == old.matched_count()
    }
}

/// `new` is `old` after event `event_id` about `order_id` arrived at `recv_at`: an event id
/// seen before counts as a duplicate and nothing else; otherwise the earliest send waiting
/// for that order id is matched with it, or, with none waiting, the event waits for its send.
pub open spec fn recv_applied(
    old: CorrelatorState,
    new: CorrelatorState,
    order_id: Seq<char>,
    event_id: Seq<char>,
    recv_at: u64,
) -> bool {
    &&& new.received_count() == old.received_count() + 1
    &&& new.sent_count() == old.sent_count()
    &&& old.seen().contains(event_id) ==> {
        &&& new.duplicate_count() == old.duplicate_count() + 1
        &&& new.seen() == old.seen()
        &&& new.sends() == old.sends()
        &&& new.recvs() == old.recvs()
        &&& new.latencies() == old.latencies()
        &&& new.matched_count() == old.matched_count()
    }
    &&& !old.seen().contains(event_id) ==> {
        &&& new.duplicate_count() == old.duplicate_count()
        &&& new.seen() == old.seen().push(event_id)
        &&& holds_id(old.sends(), order_id) ==> {
            let i = choose|i: int| first_position(old.sends(), order_id, i);
            &&& first_position(old.sends(), order_id, i)
            &&& new.sends() == old.sends().remove(i)
            &&& new.recvs() == old.recvs()
            &&& new.latencies() == old.latencies().push(recv_at.saturating_sub(old.sends()[i].1))
            &&& new.matched_count() == old.matched_count() + 1
        }
        &&& !holds_id(old.sends(), order_id) ==> {
            &&& new.recvs() == old.recvs().push((order_id, recv_at))
            &&& new.sends() == old.sends()
            &&& new.latencies() == old.latencies()
            &&& new.matched_count() == old.matched_count()
        }
    }
}

/// Matches each accepted send with the event the engine published for it, by order id and
/// in arrival order per order id (an order id recurs when a workload places, amends and
/// cancels the same order). Either side may arrive first. Times are monotonic clock
/// readings in microseconds.
#[derive(Clone, Debug, Default)]
pub struct CorrelatorState {
    pending_sends: Vec<(String, u64)>,
    pending_recvs: Vec<(String, u64)>,
    seen_event_ids: Vec<String>,
    latencies_us: Vec<u64>,
    sent: u64,
    received: u64,
    duplicates: u64,
    matched: u64,
}

impl CorrelatorState {
    /// Sends waiting for their event, in arrival order: order id and send time.
    pub closed spec fn sends(&self) -> Seq<(Seq<char>, u64)> {
        self.pending_sends@.map_values(|p: (String, u64)| (p.0@, p.1))
    }

    /// Events waiting for their send, in arrival order: order id and receive time.
    pub closed spec fn recvs(&self) -> Seq<(Seq<char>, u64)> {
        self.pending_recvs@.map_values(|p: (String, u64)| (p.0@, p.1))
    }

    /// The event ids received so far.
    pub closed spec fn seen(&self) -> Seq<Seq<char>> {
        self.seen_event_ids@.map_values(|e: String| e@)
    }

    /// The latency samples, one per match, in match order.
    pub closed spec fn latencies(&self) -> Seq<u64> {
        self.latencies_us@
    }

    pub closed spec fn sent_count(&self) -> u64 {
        self.sent
    }

    pub closed spec fn received_count(&self) -> u64 {
        self.received
    }

    pub closed spec fn duplicate_count(&self) -> u64 {
        self.duplicates
    }

    pub closed spec fn matched_count(&self) -> u64 {
        self.matched
    }

    /// The correlator's bookkeeping balances: every reported send is matched or still
    /// waiting, every distinct event is matched or still waiting, each match gave one
    /// latency sample, and no order id waits on both sides at once.
    pub open spec fn wf(&self) -> bool {
        &&& self.duplicate_count() <= self.received_count()
        &&& self.sent_count() == self.matched_count() + self.sends().len()
        &&& self.received_count() - self.duplicate_count() == self.matched_count() + self.recvs().len()
        &&& self.latencies().len() == self.matched_count()
        &&& forall|i: int, j: int|
            0 <= i < self.sends().len() && 0 <= j < self.recvs().len() ==> #[trigger] self.sends()[i].0
                != #[trigger] self.recvs()[j].0
    }

    /// Nothing gathered yet.
    pub fn new() -> (s: CorrelatorState)
        ensures
            s.wf(),
            s.sends().len() == 0,
            s.recvs().len() == 0,
            s.seen().len() == 0,
            s.latencies().len() == 0,
            s.sent_count() == 0,
            s.received_count() == 0,
            s.duplicate_count() == 0,
            s.matched_count() == 0,
    {
        let s = CorrelatorState {
            pending_sends: Vec::new(),
            pending_recvs: Vec::new(),
            seen_event_ids: Vec::new(),
            latencies_us: Vec::new(),
            sent: 0,
            received: 0,
            duplicates: 0,
            matched: 0,
        };
        assert(s.sends() =~= Seq::<(Seq<char>, u64)>::empty());
        assert(s.recvs() =~= Seq::<(Seq<char>, u64)>::empty());
        assert(s.seen() =~= Seq::<Seq<char>>::empty());
        s
    }

    /// Records an accepted send of `order_id` at `sent_at_us`. The earliest event waiting
    /// for that order id is matched with it, giving the latency from send to event (zero if
    /// the event is stamped earlier); with none waiting, the send waits for its event.
    pub fn on_sent(&mut self, order_id: String, sent_at_us: u64)
        requires
            old(self).wf(),
            old(self).sent_count() < u64::MAX,
            old(self).matched_count() < u64::MAX,
        ensures
            final(self).wf(),
            sent_applied(*old(self), *final(self), order_id@, sent_at_us),
    {
        self.sent = self.sent + 1;
        match find_first(&self.pending_recvs, order_id.as_str()) {
            Some(i) => {
                let ghost before = self.pending_recvs@;
                let (_, recv_at_us) = self.pending_recvs.remove(i);
                proof {
                    lemma_first_position_unique(
                        before.map_values(|p: (String, u64)| (p.0@, p.1)),
                        order_id@,
                        i as int,
                    );
                    assert(self.pending_recvs@.map_values(|p: (String, u64)| (p.0@, p.1)) =~= before.map_values(
                        |p: (String, u64)| (p.0@, p.1),
                    ).remove(i as int));
                }
                self.latencies_us.push(recv_at_us.saturating_sub(sent_at_us));
                self.matched = self.matched + 1;
            },
            None => {
                self.pending_sends.push((order_id, sent_at_us));
                proof {
                    assert(self.sends() =~= old(self).sends().push((order_id@, sent_at_us)));
                }
            },
        }
    }

    /// Records event `event_id` about `order_id`, received at `recv_at_us`. An event id seen
    /// before counts as a duplicate and nothing else. Otherwise the earliest send waiting
    /// for that order id is matched with it; with none waiting, the event waits for its send.
    pub fn on_recv(&mut self, order_id: String, event_id: String, recv_at_us: u64)
        requires
            old(self).wf(),
            old(self).received_count() < u64::MAX,
            old(self).matched_count() < u64::MAX,
        ensures
            final(self).wf(),
            recv_applied(*old(self), *final(self), order_id@, event_id@, recv_at_us),
    {
        self.received = self.received + 1;
        if contains_text(&self.seen_event_ids, event_id.as_str()) {
            self.duplicates = self.duplicates + 1;
            return;
        }
        self.seen_event_ids.push(event_id);
        proof {
            assert(self.seen() =~= old(self).seen().push(event_id@));
        }
        match find_first(&self.pending_sends, order_id.as_str()) {
            Some(i) => {
                let ghost before = self.pending_sends@;
                let (_, sent_at_us) = self.pending_sends.remove(i);
                proof {
                    lemma_first_position_unique(
                        before.map_values(|p: (String, u64)| (p.0@, p.1)),
                        order_id@,
                        i as int,
                    );
                    assert(self.pending_sends@.map_values(|p: (String, u64)| (p.0@, p.1)) =~= before.map_values(
                        |p: (String, u64)| (p.0@, p.1),
                    ).remove(i as int));
                }
                self.latencies_us.push(recv_at_us.saturating_sub(sent_at_us));
                self.matched = self.matched + 1;
            },
            None => {
                self.pending_recvs.push((order_id, recv_at_us));
                proof {
                    assert(self.recvs() =~= old(self).recvs().push((order_id@, recv_at_us)));
                }
            },
        }
    }

    /// Whether `expected` sends were reported and as many were matched.
    pub fn is_settled(&self, expected: u64) -> (r: bool)
        ensures
            r == (self.sent_count() >= expected && self.matched_count() >= expected),
    {
        self.sent >= expected && self.matched >= expected
    }

    /// The summary so far.
    pub fn snapshot(&self) -> (r: CorrelatorSummary)
        requires
            self.wf(),
        ensures
            self.summarizes(r),
    {
        self.summary()
    }

    /// The final summary.
    pub fn finish(self) -> (r: CorrelatorSummary)
        requires
            self.wf(),
        ensures
            self.summarizes(r),
    {
        self.summary()
    }

    /// `r` reports this state: its counters, the sends and events still waiting, and the
    /// statistics of the latency samples.
    pub open spec fn summarizes(&self, r: CorrelatorSummary) -> bool {
        &&& r.sent == self.sent_count()
        &&& r.received == self.received_count()
        &&& r.unique == self.received_count() - self.duplicate_count()
        &&& r.duplicates == self.duplicate_count()
        &&& r.matched == self.matched_count()
        &&& r.missing == self.sends().len()
        &&& r.unmatched_recv == self.recvs().len()
        &&& exists|sorted: Seq<u64>|
            is_sorted(sorted) && sorted.to_multiset() == self.latencies().to_multiset() && r.latency == latency_of(
                sorted,
            )
    }

    fn summary(&self) -> (r: CorrelatorSummary)
        requires
            self.wf(),
        ensures
            self.summarizes(r),
    {
        CorrelatorSummary {
            sent: self.sent,
            received: self.received,
            unique: self.received - self.duplicates,
            duplicates: self.duplicates,
            matched: self.matched,
            missing: self.pending_sends.len() as u64,
            unmatched_recv: self.pending_recvs.len() as u64,
            latency: summarize(&self.latencies_us),
        }
    }
}

/// The summary of a correlator balances: every reported send was matched or is missing,
/// every distinct event was matched or is unmatched, and there is one latency sample per
/// match.
pub proof fn law_summary_balances(state: CorrelatorState, r: CorrelatorSummary)
    requires
        state.wf(),
        state.summarizes(r),
    ensures
        r.sent == r.matched + r.missing,
        r.unique == r.matched + r.unmatched_recv,
        r.latency.count == r.matched,
{
    let sorted = choose|sorted: Seq<u64>|
        is_sorted(sorted) && sorted.to_multiset() == state.latencies().to_multiset() && r.latency == latency_of(
            sorted,
        );
    vstd::seq_lib::to_multiset_len(sorted);
    vstd::seq_lib::to_multiset_len(state.latencies());
}

/// A first position is the only first position.
proof fn lemma_first_position_unique(s: Seq<(Seq<char>, u64)>, id: Seq<char>, i: int)
    requires
        first_position(s, id, i),
    ensures
        holds_id(s, id),
        (choose|k: int| first_position(s, id, k)) == i,
{
    let k = choose|k: int| first_position(s, id, k);
    assert(first_position(s, id, k));
    if k < i {
        assert(s[k].0 != id);
    } else if k > i {
        assert(s[i].0 != id);
    }
}

/// The first position holding `id`, if any.
fn find_first(v: &Vec<(String, u64)>, id: &str) -> (r: Option<usize>)
    ensures
        r matches Some(i) ==> first_position(v@.map_values(|p: (String, u64)| (p.0@, p.1)), id@, i as int),
        r is None ==> !holds_id(v@.map_values(|p: (String, u64)| (p.0@, p.1)), id@),
{
    let ghost s = v@.map_values(|p: (String, u64)| (p.0@, p.1));
    let mut i: usize = 0;
    while i < v.len()
        invariant
            0 <= i <= v@.len(),
            s == v@.map_values(|p: (String, u64)| (p.0@, p.1)),
            forall|j: int| 0 <= j < i ==> s[j].0 != id@,
        decreases v@.len() - i,
    {
        if str_eq(v[i].0.as_str(), id) {
            return Some(i);
        }
        i = i + 1;
    }
    None
}

/// Whether some string of `v` is `text`.
fn contains_text(v: &Vec<String>, text: &str) -> (r: bool)
    ensures
        r == v@.map_values(|e: String| e@).contains(text@),
{
    let ghost s = v@.map_values(|e: String| e@);
    let mut i: usize = 0;
    while i < v.len()
        invariant
            0 <= i <= v@.len(),
            s == v@.map_values(|e: String| e@),
            forall|j: int| 0 <= j < i ==> s[j] != text@,
        decreases v@.len() - i,
    {
        if str_eq(v[i].as_str(), text) {
            assert(s[i as int] == text@);
            return true;
        }
        i = i + 1;
    }
    false
}

} // verus!

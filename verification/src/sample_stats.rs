use vstd::prelude::*;

verus! {

/// The sum of the samples.
pub open spec fn sample_sum(s: Seq<u64>) -> int
    decreases s.len(),
{
    if s.len() == 0 {
        0
    } else {
        sample_sum(s.drop_last()) + s.last()
    }
}

/// The nearest-rank position of the percentile `per_mille / 10` among `len >= 1` sorted
/// samples: `per_mille / 1000 * (len - 1)` rounded half up, at most `len - 1`.
pub open spec fn nearest_rank(len: nat, per_mille: nat) -> int {
    let r = (2 * per_mille * (len - 1) + 1000) / 2000;
    if r < len - 1 {
        r
    } else {
        len - 1
    }
}

/// Ascending order.
pub open spec fn is_sorted(s: Seq<u64>) -> bool {
    forall|i: int, j: int| 0 <= i <= j < s.len() ==> s[i] <= s[j]
}

/// Sorts samples in ascending order, by `slice::sort_unstable`.
/// Trusted: the result holds the same samples, in ascending order.
#[verifier::external_body]
pub(crate) fn sort_ascending(samples: &mut Vec<u64>)
    ensures
        final(samples)@.to_multiset() == old(samples)@.to_multiset(),
        is_sorted(final(samples)@),
{
    samples.sort_unstable()
}

proof fn lemma_sum_bound(s: Seq<u64>)
    ensures
        0 <= sample_sum(s) <= s.len() * 0xFFFF_FFFF_FFFF_FFFF,
    decreases s.len(),
{
    if s.len() > 0 {
        lemma_sum_bound(s.drop_last());
    }
}

/// The sum of the samples, exactly (it always fits in 128 bits).
pub fn sum_of(samples: &[u64]) -> (r: u128)
    ensures
        r == sample_sum(samples@),
{
    let n = samples.len();
    let mut sum: u128 = 0;
    let mut i: usize = 0;
    while i < n
        invariant
            n == samples@.len(),
            0 <= i <= n,
            sum == sample_sum(samples@.take(i as int)),
        decreases n - i,
    {
        proof {
            assert(samples@.take(i + 1).drop_last() =~= samples@.take(i as int));
            lemma_sum_bound(samples@.take(i as int));
            assert(i * 0xFFFF_FFFF_FFFF_FFFFu128 <= 0xFFFF_FFFF_FFFF_FFFFu128 * 0xFFFF_FFFF_FFFF_FFFFu128) by (nonlinear_arith)
                requires
                    i <= 0xFFFF_FFFF_FFFF_FFFFu128,
            ;
        }
        sum = sum + samples[i] as u128;
        i = i + 1;
    }
    assert(samples@.take(n as int) =~= samples@);
    sum
}

/// The average sample, rounded down; the samples must not be empty.
pub fn mean_of(samples: &[u64]) -> (r: u64)
    requires
        samples@.len() > 0,
    ensures
        r == sample_sum(samples@) / (samples@.len() as int),
{
    let sum = sum_of(samples);
    let count = samples.len() as u128;
    proof {
        lemma_sum_bound(samples@);
        let c = samples@.len() as int;
        assert(sample_sum(samples@) / c <= 0xFFFF_FFFF_FFFF_FFFF) by (nonlinear_arith)
            requires
                c > 0,
                0 <= sample_sum(samples@) <= c * 0xFFFF_FFFF_FFFF_FFFF,
        ;
    }
    (sum / count) as u64
}

/// The sample at the nearest-rank position of the percentile `per_mille / 10`.
pub fn percentile(sorted: &[u64], per_mille: u64) -> (r: u64)
    requires
        sorted@.len() > 0,
        per_mille <= 1000,
    ensures
        r == sorted@[nearest_rank(sorted@.len(), per_mille as nat)],
{
    let len = sorted.len();
    let last = (len - 1) as u128;
    proof {
        assert(2 * per_mille * last <= 2000 * 0xFFFF_FFFF_FFFF_FFFFu128) by (nonlinear_arith)
            requires
                per_mille <= 1000,
                last <= 0xFFFF_FFFF_FFFF_FFFFu128,
        ;
    }
    let rank = (2 * per_mille as u128 * last + 1000) / 2000;
    let index: usize = if rank < last {
        rank as usize
    } else {
        len - 1
    };
    sorted[index]
}


/// Over samples sorted in ascending order, a higher percentile is never below a lower one,
/// and every percentile lies between the smallest and the largest sample.
pub proof fn law_percentiles_are_ordered(s: Seq<u64>, lower: nat, higher: nat)
    requires
        is_sorted(s),
        s.len() > 0,
        lower <= higher <= 1000,
    ensures
        0 <= nearest_rank(s.len(), lower) <= nearest_rank(s.len(), higher) < s.len(),
        s[0] <= s[nearest_rank(s.len(), lower)] <= s[nearest_rank(s.len(), higher)] <= s[s.len() - 1],
{
    let n = s.len();
    assert(2 * lower * (n - 1) <= 2 * higher * (n - 1)) by (nonlinear_arith)
        requires
            lower <= higher,
            n >= 1,
    ;
    assert(0 <= 2 * lower * (n - 1)) by (nonlinear_arith)
        requires
            n >= 1,
    ;
    let a = (2 * lower * (n - 1) + 1000) / 2000;
    let b = (2 * higher * (n - 1) + 1000) / 2000;
    assert(a <= b) by (nonlinear_arith)
        requires
            2 * lower * (n - 1) <= 2 * higher * (n - 1),
            a == (2 * lower * (n - 1) + 1000) / 2000,
            b == (2 * higher * (n - 1) + 1000) / 2000,
    ;
    assert(a >= 0) by (nonlinear_arith)
        requires
            0 <= 2 * lower * (n - 1),
            a == (2 * lower * (n - 1) + 1000) / 2000,
    ;
}

} // verus!

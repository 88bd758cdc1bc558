//! Rolling latency statistics: percentiles, mean, min and max over the most
//! recent samples.
use std::collections::VecDeque;
use vstd::prelude::*;
use vstd::relations::{sorted_by, total_ordering};
use vstd::seq_lib::lemma_sorted_unique;

verus! {

broadcast use vstd::seq_lib::group_to_multiset_ensures;

/// The ascending order on samples.
pub open spec fn sample_leq() -> spec_fn(u64, u64) -> bool {
    |a: u64, b: u64| a <= b
}

/// The samples in ascending order.
pub open spec fn sorted_samples(s: Seq<u64>) -> Seq<u64> {
    s.sort_by(sample_leq())
}

/// The index that `round(pct / 100 * (n - 1))` selects among `n` sorted samples.
pub open spec fn percentile_index(pct: int, n: int) -> int {
    let idx = (2 * pct * (n - 1) + 100) / 200;
    if idx < n - 1 {
        idx
    } else {
        n - 1
    }
}

/// The sum of the samples.
pub open spec fn sample_sum(s: Seq<u64>) -> int
    decreases s.len(),
{
    if s.len() == 0 {
        0
    } else {
        sample_sum(s.drop_last()) + s.last()
    }
}

/// Whether `m` is the smallest sample.
pub open spec fn is_min_sample(s: Seq<u64>, m: u64) -> bool {
    &&& s.contains(m)
    &&& forall|i: int| 0 <= i < s.len() ==> m <= #[trigger] s[i]
}

/// Whether `m` is the largest sample.
pub open spec fn is_max_sample(s: Seq<u64>, m: u64) -> bool {
    &&& s.contains(m)
    &&& forall|i: int| 0 <= i < s.len() ==> #[trigger] s[i] <= m
}

/// The samples after recording `x` with the given retention limit.
pub open spec fn recorded(s: Seq<u64>, max_samples: nat, x: u64) -> Seq<u64> {
    if s.len() >= max_samples && s.len() > 0 {
        s.drop_first().push(x)
    } else {
        s.push(x)
    }
}

proof fn lemma_sample_leq_total()
    ensures
        total_ordering(sample_leq()),
{
}

/// Tracks recent latency measurements (in microseconds).
#[derive(Debug)]
pub struct LatencyTracker {
    samples: VecDeque<u64>,
    max_samples: usize,
}

/// Sorts a copy of the samples ascending (insertion sort).
fn sorted_copy(v: &VecDeque<u64>) -> (r: Vec<u64>)
    ensures
        sorted_by(r@, sample_leq()),
        r@.to_multiset() == v@.to_multiset(),
        r@.len() == v@.len(),
{
    let mut out: Vec<u64> = Vec::new();
    let n = v.len();
    let mut i: usize = 0;
    while i < n
        invariant
            n == v@.len(),
            i <= n,
            sorted_by(out@, sample_leq()),
            out@.to_multiset() == v@.subrange(0, i as int).to_multiset(),
            out@.len() == i,
        decreases n - i,
    {
        let x = v[i];
        let mut pos: usize = 0;
        while pos < out.len() && out[pos] <= x
            invariant
                pos <= out@.len(),
                forall|j: int| 0 <= j < pos ==> out@[j] <= x,
            decreases out@.len() - pos,
        {
            pos = pos + 1;
        }
        let ghost before = out@;
        out.insert(pos, x);
        proof {
            assert(v@.subrange(0, i + 1) =~= v@.subrange(0, i as int).push(x));
            assert forall|a: int, b: int| 0 <= a < b < out@.len() implies #[trigger] (sample_leq())(
                out@[a],
                out@[b],
            ) by {
                assert(sorted_by(before, sample_leq()));
                if b < pos {
                    assert((sample_leq())(before[a], before[b]));
                } else if b == pos {
                    assert(out@[a] == before[a]);
                } else if a < pos {
                    assert(out@[b] == before[b - 1]);
                    if pos < before.len() {
                        assert((sample_leq())(before[a], before[b - 1]));
                    }
                } else if a == pos {
                    assert(out@[b] == before[b - 1]);
                    assert(!(before[pos as int] <= x));
                    if b - 1 > pos {
                        assert((sample_leq())(before[pos as int], before[b - 1]));
                    }
                } else {
                    assert((sample_leq())(before[a - 1], before[b - 1]));
                }
            }
        }
        i = i + 1;
    }
    assert(v@.subrange(0, n as int) =~= v@);
    out
}

impl LatencyTracker {
    /// The retained samples, oldest first.
    pub closed spec fn samples_view(&self) -> Seq<u64> {
        self.samples@
    }

    /// The retention limit.
    pub closed spec fn limit(&self) -> nat {
        self.max_samples as nat
    }

    /// Create a tracker retaining up to `max_samples` measurements.
    pub fn new(max_samples: usize) -> (r: Self)
        ensures
            r.samples_view() == Seq::<u64>::empty(),
            r.limit() == max_samples,
    {
        LatencyTracker { samples: VecDeque::with_capacity(max_samples), max_samples }
    }

    /// Record a latency measurement, dropping the oldest one when the limit
    /// is reached.
    pub fn record(&mut self, latency_us: u64)
        ensures
            final(self).samples_view() == recorded(
                old(self).samples_view(),
                old(self).limit(),
                latency_us,
            ),
            final(self).limit() == old(self).limit(),
    {
        if self.samples.len() >= self.max_samples {
            let _ = self.samples.pop_front();
        }
        self.samples.push_back(latency_us);
    }

    /// Median latency (50th percentile).
    pub fn p50(&self) -> (r: u64)
        ensures
            self.samples_view().len() == 0 ==> r == 0,
            self.samples_view().len() > 0 ==> r == sorted_samples(self.samples_view())[
                percentile_index(50, self.samples_view().len() as int)],
    {
        self.percentile(50)
    }

    /// 99th percentile latency.
    pub fn p99(&self) -> (r: u64)
        ensures
            self.samples_view().len() == 0 ==> r == 0,
            self.samples_view().len() > 0 ==> r == sorted_samples(self.samples_view())[
                percentile_index(99, self.samples_view().len() as int)],
    {
        self.percentile(99)
    }

    /// Mean latency (integer division); 0 without samples.
    pub fn mean(&self) -> (r: u64)
        requires
            sample_sum(self.samples_view()) <= u64::MAX,
        ensures
            self.samples_view().len() == 0 ==> r == 0,
            self.samples_view().len() > 0 ==> r == sample_sum(self.samples_view())
                / self.samples_view().len() as int,
    {
        let n = self.samples.len();
        if n == 0 {
            return 0;
        }
        let mut sum: u64 = 0;
        let mut i: usize = 0;
        while i < n
            invariant
                n == self.samples@.len(),
                i <= n,
                sum == sample_sum(self.samples@.subrange(0, i as int)),
                sample_sum(self.samples@) <= u64::MAX,
            decreases n - i,
        {
            proof {
                assert(self.samples@.subrange(0, i + 1).drop_last() =~= self.samples@.subrange(
                    0,
                    i as int,
                ));
                lemma_sample_sum_prefix_le(self.samples@, i + 1);
            }
            sum = sum + self.samples[i];
            i = i + 1;
        }
        assert(self.samples@.subrange(0, n as int) =~= self.samples@);
        sum / (n as u64)
    }

    /// Largest sample; 0 without samples.
    pub fn max(&self) -> (r: u64)
        ensures
            self.samples_view().len() == 0 ==> r == 0,
            self.samples_view().len() > 0 ==> is_max_sample(self.samples_view(), r),
    {
        let n = self.samples.len();
        if n == 0 {
            return 0;
        }
        let mut best = self.samples[0];
        assert(self.samples@.subrange(0, 1)[0] == best);
        let mut i: usize = 1;
        while i < n
            invariant
                n == self.samples@.len(),
                1 <= i <= n,
                self.samples@.subrange(0, i as int).contains(best),
                forall|j: int| 0 <= j < i ==> #[trigger] self.samples@[j] <= best,
            decreases n - i,
        {
            let x = self.samples[i];
            if x > best {
                best = x;
                assert(self.samples@.subrange(0, i + 1)[i as int] == x);
            } else {
                proof {
                    let k = choose|k: int|
                        0 <= k < i && #[trigger] self.samples@.subrange(0, i as int)[k] == best;
                    assert(self.samples@.subrange(0, i + 1)[k] == best);
                }
            }
            i = i + 1;
        }
        assert(self.samples@.subrange(0, n as int) =~= self.samples@);
        best
    }

    /// Smallest sample; 0 without samples.
    pub fn min(&self) -> (r: u64)
        ensures
            self.samples_view().len() == 0 ==> r == 0,
            self.samples_view().len() > 0 ==> is_min_sample(self.samples_view(), r),
    {
        let n = self.samples.len();
        if n == 0 {
            return 0;
        }
        let mut best = self.samples[0];
        assert(self.samples@.subrange(0, 1)[0] == best);
        let mut i: usize = 1;
        while i < n
            invariant
                n == self.samples@.len(),
                1 <= i <= n,
                self.samples@.subrange(0, i as int).contains(best),
                forall|j: int| 0 <= j < i ==> best <= #[trigger] self.samples@[j],
            decreases n - i,
        {
            let x = self.samples[i];
            if x < best {
                best = x;
                assert(self.samples@.subrange(0, i + 1)[i as int] == x);
            } else {
                proof {
                    let k = choose|k: int|
                        0 <= k < i && #[trigger] self.samples@.subrange(0, i as int)[k] == best;
                    assert(self.samples@.subrange(0, i + 1)[k] == best);
                }
            }
            i = i + 1;
        }
        assert(self.samples@.subrange(0, n as int) =~= self.samples@);
        best
    }

    /// Number of samples currently stored.
    pub fn count(&self) -> (r: usize)
        ensures
            r == self.samples_view().len(),
    {
        self.samples.len()
    }

    /// The sample at percentile `pct` (0-100) of the sorted samples, with the
    /// index rounded to the nearest; 0 without samples.
    fn percentile(&self, pct: u32) -> (r: u64)
        requires
            pct <= 100,
        ensures
            self.samples_view().len() == 0 ==> r == 0,
            self.samples_view().len() > 0 ==> r == sorted_samples(self.samples_view())[
                percentile_index(pct as int, self.samples_view().len() as int)],
    {
        let n = self.samples.len();
        if n == 0 {
            return 0;
        }
        let sorted = sorted_copy(&self.samples);
        proof {
            lemma_sample_leq_total();
            self.samples@.lemma_sort_by_ensures(sample_leq());
            lemma_sorted_unique(sorted@, sorted_samples(self.samples@), sample_leq());
        }
        let n128 = n as u128;
        let p128 = pct as u128;
        assert(2 * p128 * (n128 - 1) + 100 <= 200 * 0x1_0000_0000_0000_0000) by (nonlinear_arith)
            requires
                p128 <= 100,
                1 <= n128 <= 0x1_0000_0000_0000_0000,
        ;
        let idx128 = (2 * (pct as u128) * (n128 - 1) + 100) / 200;
        let idx = if idx128 < n128 - 1 {
            idx128 as usize
        } else {
            n - 1
        };
        sorted[idx]
    }
}

proof fn lemma_sample_sum_prefix_le(s: Seq<u64>, k: int)
    requires
        0 <= k <= s.len(),
    ensures
        sample_sum(s.subrange(0, k)) <= sample_sum(s),
    decreases s.len() - k,
{
    if k < s.len() {
        lemma_sample_sum_prefix_le(s, k + 1);
        assert(s.subrange(0, k + 1).drop_last() =~= s.subrange(0, k));
    } else {
        assert(s.subrange(0, k) =~= s);
    }
}

impl Default for LatencyTracker {
    fn default() -> (r: Self)
        ensures
            r.samples_view() == Seq::<u64>::empty(),
            r.limit() == 1000,
    {
        Self::new(1000)
    }
}

/// The tracker keeps at most `max_samples` samples (at least the newest
/// one): recording into a full tracker drops the oldest sample.
pub proof fn lemma_recording_keeps_limit(s: Seq<u64>, max_samples: nat, x: u64)
    requires
        s.len() <= max_samples,
        max_samples > 0,
    ensures
        recorded(s, max_samples, x).len() <= max_samples,
        recorded(s, max_samples, x).last() == x,
{
}

/// The samples after recording each of `xs` in turn onto `s`.
pub open spec fn recorded_all(s: Seq<u64>, max_samples: nat, xs: Seq<u64>) -> Seq<u64>
    decreases xs.len(),
{
    if xs.len() == 0 {
        s
    } else {
        recorded(recorded_all(s, max_samples, xs.drop_last()), max_samples, xs.last())
    }
}

/// The last `n` samples of `s` (all of them when it has no more than `n`).
pub open spec fn last_samples(s: Seq<u64>, n: nat) -> Seq<u64> {
    if s.len() <= n {
        s
    } else {
        s.subrange(s.len() - n, s.len() as int)
    }
}

proof fn lemma_record_keeps_last(t: Seq<u64>, max_samples: nat, x: u64)
    requires
        max_samples > 0,
    ensures
        recorded(last_samples(t, max_samples), max_samples, x) == last_samples(t.push(x), max_samples),
{
    if t.len() < max_samples {
        assert(last_samples(t.push(x), max_samples) =~= t.push(x));
    } else {
        let k = last_samples(t, max_samples);
        assert(k.len() == max_samples);
        assert(recorded(k, max_samples, x) =~= last_samples(t.push(x), max_samples));
    }
}

/// The statistics window: recording a sequence of measurements into a
/// tracker that keeps up to `max_samples` (at least one) leaves exactly the
/// last `max_samples` of all measurements so far, oldest first (all of them
/// while there are fewer). Count, minimum, maximum, mean and percentiles
/// are then taken over that window.
pub proof fn lemma_window_after_records(s: Seq<u64>, max_samples: nat, xs: Seq<u64>)
    requires
        max_samples > 0,
        s.len() <= max_samples,
    ensures
        recorded_all(s, max_samples, xs) == last_samples(s + xs, max_samples),
        recorded_all(s, max_samples, xs).len() == if s.len() + xs.len() <= max_samples {
            s.len() + xs.len()
        } else {
            max_samples
        },
    decreases xs.len(),
{
    if xs.len() == 0 {
        assert(s + xs =~= s);
    } else {
        lemma_window_after_records(s, max_samples, xs.drop_last());
        lemma_record_keeps_last(s + xs.drop_last(), max_samples, xs.last());
        assert((s + xs.drop_last()).push(xs.last()) =~= s + xs);
    }
}

/// The median never exceeds the 99th percentile.
pub proof fn lemma_p50_le_p99(s: Seq<u64>)
    requires
        s.len() > 0,
    ensures
        sorted_samples(s)[percentile_index(50, s.len() as int)] <= sorted_samples(s)[percentile_index(
            99,
            s.len() as int,
        )],
{
    lemma_sample_leq_total();
    s.lemma_sort_by_ensures(sample_leq());
    let n = s.len() as int;
    let a = (2 * 50 * (n - 1) + 100) / 200;
    let b = (2 * 99 * (n - 1) + 100) / 200;
    assert(a <= b) by (nonlinear_arith)
        requires
            n >= 1,
            a == (2 * 50 * (n - 1) + 100) / 200,
            b == (2 * 99 * (n - 1) + 100) / 200,
    ;
    assert(0 <= a) by (nonlinear_arith)
        requires
            n >= 1,
            a == (2 * 50 * (n - 1) + 100) / 200,
    ;
    let i = percentile_index(50, n);
    let j = percentile_index(99, n);
    let t = sorted_samples(s);
    assert(t.len() == n) by {
        assert(t.to_multiset().len() == s.to_multiset().len());
    }
    if i < j {
        assert((sample_leq())(t[i], t[j]));
    }
}

} // verus!

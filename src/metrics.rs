use vstd::prelude::*;

use crate::domain::PreviewMetrics;

verus! {

/// Capacity of the render latency window.
pub const METRIC_WINDOW_SIZE: usize = 64;

/// `t` holds the values of `s` in ascending order.
pub open spec fn is_sorted_permutation(t: Seq<u64>, s: Seq<u64>) -> bool {
    &&& t.len() == s.len()
    &&& t.to_multiset() == s.to_multiset()
    &&& forall|i: int, j: int| 0 <= i <= j < t.len() ==> t[i] <= t[j]
}

/// Nearest-rank index of the 95th percentile in a sorted window of `n` samples:
/// `round((n - 1) * 0.95)`, halves rounded up.
pub open spec fn p95_index(n: nat) -> int {
    ((n - 1) * 95 + 50) / 100
}

/// `r` is the 95th-percentile sample of `s`: `None` for an empty window, otherwise the
/// sample at the nearest-rank index of the sorted window.
pub open spec fn is_p95_of(r: Option<u64>, s: Seq<u64>) -> bool {
    if s.len() == 0 {
        r is None
    } else {
        exists|t: Seq<u64>| #[trigger] is_sorted_permutation(t, s) && r == Some(t[p95_index(s.len())])
    }
}

/// The last `n` entries of `s` (all of it when shorter).
pub open spec fn keep_last(s: Seq<u64>, n: nat) -> Seq<u64> {
    if s.len() <= n {
        s
    } else {
        s.subrange(s.len() - n, s.len() as int)
    }
}

/// A multiset of samples has exactly one ascending arrangement, so the 95th-percentile
/// sample that `is_p95_of` describes is a single value.
pub proof fn lemma_sorted_permutation_unique(t1: Seq<u64>, t2: Seq<u64>, s: Seq<u64>)
    requires
        is_sorted_permutation(t1, s),
        is_sorted_permutation(t2, s),
    ensures
        t1 == t2,
    decreases s.len(),
{
    if s.len() == 0 {
        assert(t1 =~= t2);
    } else {
        let n = s.len() as int;
        let a = t1[n - 1];
        let b = t2[n - 1];
        t1.to_multiset_ensures();
        t2.to_multiset_ensures();
        assert(t1.to_multiset().count(a) > 0) by {
            assert(t1.contains(a)) by {
                assert(t1[n - 1] == a);
            }
        }
        assert(t2.to_multiset().count(b) > 0) by {
            assert(t2.contains(b)) by {
                assert(t2[n - 1] == b);
            }
        }
        assert(t2.contains(a));
        assert(t1.contains(b));
        let i = choose|i: int| 0 <= i < t2.len() && t2[i] == a;
        let j = choose|j: int| 0 <= j < t1.len() && t1[j] == b;
        assert(a <= b);
        assert(b <= a);
        let r1 = t1.remove(n - 1);
        let r2 = t2.remove(n - 1);
        assert(r1.to_multiset() =~= t1.to_multiset().remove(a));
        assert(r2.to_multiset() =~= t2.to_multiset().remove(b));
        assert(is_sorted_permutation(r2, r1));
        assert(is_sorted_permutation(r1, r1));
        lemma_sorted_permutation_unique(r1, r2, r1);
        assert(t1 =~= r1.push(a));
        assert(t2 =~= r2.push(b));
    }
}

/// Relies on slice::sort_unstable: the vector ends in ascending order with the same values.
#[verifier::external_body]
fn sort_ascending(v: &mut Vec<u64>)
    ensures
        is_sorted_permutation(final(v)@, old(v)@),
{
    v.sort_unstable();
}

/// 95th-percentile sample by nearest rank over a copy of the window; `None` when empty.
pub fn percentile_95(samples: &[u64]) -> (r: Option<u64>)
    ensures
        is_p95_of(r, samples@),
{
    if samples.len() == 0 {
        return None;
    }
    let mut sorted: Vec<u64> = Vec::new();
    let mut i: usize = 0;
    while i < samples.len()
        invariant
            i <= samples@.len(),
            sorted@ == samples@.subrange(0, i as int),
        decreases samples@.len() - i,
    {
        sorted.push(samples[i]);
        i = i + 1;
    }
    assert(sorted@ =~= samples@);
    sort_ascending(&mut sorted);
    let n = sorted.len();
    let wide: u128 = ((n - 1) as u128 * 95 + 50) / 100;
    assert(wide < n) by (nonlinear_arith)
        requires
            n >= 1,
            wide == ((n - 1) * 95 + 50) / 100,
    ;
    let index = wide as usize;
    let r = sorted[index];
    assert(is_sorted_permutation(sorted@, samples@));
    Some(r)
}

/// Mutable counters and the latency window behind the pipeline's metrics snapshot.
pub struct MetricsState {
    pub submitted_jobs: u64,
    pub completed_jobs: u64,
    pub canceled_jobs: u64,
    pub dropped_frames: u64,
    pub last_render_time_ms: Option<u64>,
    pub render_samples_ms: Vec<u64>,
}

impl MetricsState {
    /// The window never holds more than its capacity.
    pub open spec fn wf(&self) -> bool {
        self.render_samples_ms@.len() <= METRIC_WINDOW_SIZE
    }

    pub fn new() -> (r: MetricsState)
        ensures
            r.submitted_jobs == 0,
            r.completed_jobs == 0,
            r.canceled_jobs == 0,
            r.dropped_frames == 0,
            r.last_render_time_ms is None,
            r.render_samples_ms@.len() == 0,
            r.wf(),
    {
        MetricsState {
            submitted_jobs: 0,
            completed_jobs: 0,
            canceled_jobs: 0,
            dropped_frames: 0,
            last_render_time_ms: None,
            render_samples_ms: Vec::new(),
        }
    }

    /// The snapshot handed to callers: the counters, the last latency and the 95th percentile.
    pub fn snapshot(&self) -> (r: PreviewMetrics)
        ensures
            r.submitted_jobs == self.submitted_jobs,
            r.completed_jobs == self.completed_jobs,
            r.canceled_jobs == self.canceled_jobs,
            r.dropped_frames == self.dropped_frames,
            r.last_render_time_ms == self.last_render_time_ms,
            is_p95_of(r.p95_render_time_ms, self.render_samples_ms@),
    {
        PreviewMetrics {
            submitted_jobs: self.submitted_jobs,
            completed_jobs: self.completed_jobs,
            canceled_jobs: self.canceled_jobs,
            dropped_frames: self.dropped_frames,
            last_render_time_ms: self.last_render_time_ms,
            p95_render_time_ms: percentile_95(self.render_samples_ms.as_slice()),
        }
    }

    /// Records one render latency: it becomes the last one, and enters the window, evicting
    /// the oldest entries beyond the capacity.
    pub fn push_render_sample(&mut self, sample_ms: u64)
        ensures
            final(self).last_render_time_ms == Some(sample_ms),
            final(self).render_samples_ms@ == keep_last(
                old(self).render_samples_ms@.push(sample_ms),
                METRIC_WINDOW_SIZE as nat,
            ),
            final(self).submitted_jobs == old(self).submitted_jobs,
            final(self).completed_jobs == old(self).completed_jobs,
            final(self).canceled_jobs == old(self).canceled_jobs,
            final(self).dropped_frames == old(self).dropped_frames,
            final(self).wf(),
    {
        self.last_render_time_ms = Some(sample_ms);
        self.render_samples_ms.push(sample_ms);
        let ghost full = self.render_samples_ms@;
        let drain_count: usize = if self.render_samples_ms.len() > METRIC_WINDOW_SIZE {
            self.render_samples_ms.len() - METRIC_WINDOW_SIZE
        } else {
            0
        };
        let mut removed: usize = 0;
        while removed < drain_count
            invariant
                full == old(self).render_samples_ms@.push(sample_ms),
                drain_count <= full.len(),
                drain_count == if full.len() > METRIC_WINDOW_SIZE {
                    full.len() - METRIC_WINDOW_SIZE
                } else {
                    0
                },
                removed <= drain_count,
                self.render_samples_ms@ == full.subrange(removed as int, full.len() as int),
                self.last_render_time_ms == Some(sample_ms),
                self.submitted_jobs == old(self).submitted_jobs,
                self.completed_jobs == old(self).completed_jobs,
                self.canceled_jobs == old(self).canceled_jobs,
                self.dropped_frames == old(self).dropped_frames,
            decreases drain_count - removed,
        {
            self.render_samples_ms.remove(0);
            removed = removed + 1;
            assert(self.render_samples_ms@ =~= full.subrange(removed as int, full.len() as int));
        }
        assert(self.render_samples_ms@ =~= keep_last(full, METRIC_WINDOW_SIZE as nat));
    }
}

} // verus!

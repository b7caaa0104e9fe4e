//! Non-cumulative gauge histogram for heatmap visualization.
//!
//! Unlike a cumulative histogram, each observation counts in one bucket only,
//! that of its `(gt, le]` range.

use crate::text::{decimal, decimal_text};
use vstd::prelude::*;

verus! {

/// Bucket boundaries.
///
/// `N` upper limits, strictly ascending, make `N + 1` buckets:
/// `(0, b[0]], (b[0], b[1]], ..., (b[N-1], +Inf]`.
#[derive(Debug)]
pub struct BucketBounds<const N: usize> {
    bounds: [u64; N],
}

/// Each limit is above the one before it.
pub open spec fn ascending(bounds: Seq<u64>) -> bool {
    forall|i: int, j: int|
        0 <= i < j < bounds.len() ==> (#[trigger] bounds[i]) < (#[trigger] bounds[j])
}

/// `value` falls into bucket `idx`.
pub open spec fn in_bucket(bounds: Seq<u64>, value: u64, idx: int) -> bool {
    &&& 0 <= idx <= bounds.len()
    &&& idx == 0 || bounds[idx - 1] < value
    &&& idx == bounds.len() || value <= bounds[idx]
}

/// How many of `observations` fall into bucket `idx`.
pub open spec fn observed(bounds: Seq<u64>, observations: Seq<u64>, idx: int) -> nat
    decreases observations.len(),
{
    if observations.len() == 0 {
        0
    } else {
        observed(bounds, observations.drop_last(), idx) + if in_bucket(
            bounds,
            observations.last(),
            idx,
        ) {
            1nat
        } else {
            0nat
        }
    }
}

/// How many of `observations` fall into the first `n` buckets together.
pub open spec fn observed_below(bounds: Seq<u64>, observations: Seq<u64>, n: int) -> nat
    decreases n,
{
    if n <= 0 {
        0
    } else {
        observed_below(bounds, observations, n - 1) + observed(bounds, observations, n - 1)
    }
}

impl<const N: usize> BucketBounds<N> {
    /// The upper limits.
    pub closed spec fn limits(&self) -> Seq<u64> {
        self.bounds@
    }

    #[verifier::type_invariant]
    closed spec fn inv(self) -> bool {
        ascending(self.bounds@) && N < usize::MAX
    }

    /// Create new bucket bounds from a sorted array of upper limits.
    pub fn new(bounds: [u64; N]) -> (r: Self)
        requires
            ascending(bounds@),
            N < usize::MAX,
        ensures
            r.limits() == bounds@,
    {
        Self { bounds }
    }

    /// Returns the number of buckets (one more than the number of bounds).
    pub fn bucket_count(&self) -> (r: usize)
        ensures
            r == N + 1,
            self.limits().len() == N,
    {
        proof {
            use_type_invariant(self);
        }
        N + 1
    }

    /// Returns the number of bounds.
    pub fn bound_count(&self) -> (r: usize)
        ensures
            r == N,
    {
        N
    }

    /// Get the bounds array.
    pub fn bounds(&self) -> (r: &[u64; N])
        ensures
            r@ == self.limits(),
            ascending(r@),
    {
        proof {
            use_type_invariant(self);
        }
        &self.bounds
    }

    /// Find the bucket index for a value. O(log N).
    pub fn bucket_index(&self, value: u64) -> (idx: usize)
        ensures
            in_bucket(self.limits(), value, idx as int),
            forall|i: int| in_bucket(self.limits(), value, i) ==> i == idx,
            idx <= N,
    {
        proof {
            use_type_invariant(self);
        }
        let mut lo: usize = 0;
        let mut hi: usize = N;
        while lo < hi
            invariant
                ascending(self.bounds@),
                0 <= lo <= hi <= N,
                self.bounds@.len() == N,
                forall|i: int| 0 <= i < lo ==> #[trigger] self.bounds@[i] < value,
                forall|i: int| hi <= i < N ==> #[trigger] self.bounds@[i] >= value,
            decreases hi - lo,
        {
            let mid: usize = lo + (hi - lo) / 2;
            if self.bounds[mid] < value {
                lo = mid + 1;
            } else {
                hi = mid;
            }
        }
        lo
    }

    /// Get the upper bound for a bucket index, or None for the +Inf bucket.
    pub fn upper_bound(&self, idx: usize) -> (r: Option<u64>)
        ensures
            r == if idx < self.limits().len() {
                Some(self.limits()[idx as int])
            } else {
                None
            },
    {
        if idx < N {
            Some(self.bounds[idx])
        } else {
            None
        }
    }

    /// Get the lower bound for a bucket index (0 for the first bucket).
    pub fn lower_bound(&self, idx: usize) -> (r: u64)
        requires
            idx <= self.limits().len(),
        ensures
            r == if idx == 0 {
                0
            } else {
                self.limits()[idx - 1]
            },
    {
        if idx == 0 {
            0
        } else {
            self.bounds[idx - 1]
        }
    }

    /// Compute bucket counts into a pre-allocated buffer.
    pub fn compute_counts_into(&self, counts: &mut [usize], observations: &[u64])
        requires
            old(counts)@.len() > N,
        ensures
            final(counts)@.len() == old(counts)@.len(),
            forall|i: int|
                0 <= i <= N ==> #[trigger] final(counts)@[i] == observed(
                    self.limits(),
                    observations@,
                    i,
                ),
            forall|i: int|
                N < i < old(counts)@.len() ==> #[trigger] final(counts)@[i] == old(counts)@[i],
    {
        proof {
            use_type_invariant(self);
        }
        let mut k: usize = 0;
        while k <= N
            invariant
                k <= N + 1,
                N < usize::MAX,
                counts@.len() == old(counts)@.len(),
                counts@.len() > N,
                forall|i: int| 0 <= i < k ==> #[trigger] counts@[i] == 0,
                forall|i: int| N < i < counts@.len() ==> #[trigger] counts@[i] == old(counts)@[i],
            decreases N + 1 - k,
        {
            counts[k] = 0;
            k += 1;
        }
        let total: usize = observations.len();
        let mut n: usize = 0;
        assert(observations@.take(0) =~= Seq::<u64>::empty());
        while n < total
            invariant
                n <= total,
                total == observations@.len(),
                counts@.len() == old(counts)@.len(),
                counts@.len() > N,
                forall|i: int|
                    0 <= i <= N ==> #[trigger] counts@[i] == observed(
                        self.limits(),
                        observations@.take(n as int),
                        i,
                    ) && counts@[i] <= n,
                forall|i: int| N < i < counts@.len() ==> #[trigger] counts@[i] == old(counts)@[i],
            decreases observations@.len() - n,
        {
            let value: u64 = observations[n];
            let idx: usize = self.bucket_index(value);
            let ghost before = counts@;
            assert(observations@.take(n + 1).drop_last() =~= observations@.take(n as int));
            assert(before[idx as int] <= n);
            counts[idx] = counts[idx] + 1;
            assert forall|i: int| 0 <= i <= N implies #[trigger] counts@[i] == observed(
                self.limits(),
                observations@.take(n + 1),
                i,
            ) && counts@[i] <= n + 1 by {
                assert(before[i] == observed(self.limits(), observations@.take(n as int), i));
            }
            n += 1;
        }
        assert(observations@.take(observations@.len() as int) =~= observations@);
    }

    /// Compute bucket counts, allocating a new Vec.
    pub fn compute_counts(&self, observations: &[u64]) -> (counts: Vec<usize>)
        ensures
            counts@.len() == N + 1,
            forall|i: int|
                0 <= i <= N ==> #[trigger] counts@[i] == observed(
                    self.limits(),
                    observations@,
                    i,
                ),
    {
        let mut counts: Vec<usize> = vec![0usize; self.bucket_count()];
        self.compute_counts_into(counts.as_mut_slice(), observations);
        counts
    }

    /// The `gt` and `le` labels of a bucket.
    pub fn range_labels(&self, idx: usize) -> (r: (String, String))
        requires
            idx <= self.limits().len(),
        ensures
            r.0@ == if idx == 0 {
                "0"@
            } else {
                decimal_text(self.limits()[idx - 1] as nat)
            },
            r.1@ == if idx < self.limits().len() {
                decimal_text(self.limits()[idx as int] as nat)
            } else {
                "+Inf"@
            },
    {
        let gt = if idx == 0 {
            "0".to_owned()
        } else {
            decimal(self.bounds[idx - 1] as u128)
        };
        let le = if idx < N {
            decimal(self.bounds[idx] as u128)
        } else {
            "+Inf".to_owned()
        };
        (gt, le)
    }
}

/// A histogram's name and bounds.
#[derive(Debug)]
pub struct GaugeHistogramVec<const N: usize> {
    name: &'static str,
    bounds: &'static BucketBounds<N>,
}

impl<const N: usize> GaugeHistogramVec<N> {
    pub closed spec fn metric(&self) -> Seq<char> {
        self.name@
    }

    pub closed spec fn limits(&self) -> Seq<u64> {
        self.bounds.limits()
    }

    /// Create a new gauge histogram.
    pub fn new(name: &'static str, bounds: &'static BucketBounds<N>) -> (r: Self)
        ensures
            r.metric() == name@,
            r.limits() == bounds.limits(),
    {
        Self { name, bounds }
    }

    pub fn name(&self) -> (r: &'static str)
        ensures
            r@ == self.metric(),
    {
        self.name
    }

    pub fn bounds(&self) -> (r: &BucketBounds<N>)
        ensures
            r.limits() == self.limits(),
    {
        self.bounds
    }
}

/// Common bucket bounds for request counts.
pub fn request_count_bounds() -> (r: BucketBounds<10>)
    ensures
        r.limits() == seq![1u64, 2, 3, 5, 7, 10, 20, 50, 100, 200],
{
    let bounds: [u64; 10] = [1, 2, 3, 5, 7, 10, 20, 50, 100, 200];
    assert(bounds@ =~= seq![1u64, 2, 3, 5, 7, 10, 20, 50, 100, 200]);
    BucketBounds::new(bounds)
}

/// Every value falls into exactly one bucket.
pub proof fn one_bucket_per_value(bounds: Seq<u64>, value: u64)
    requires
        ascending(bounds),
    ensures
        exists|i: int| in_bucket(bounds, value, i),
        forall|i: int, j: int|
            in_bucket(bounds, value, i) && in_bucket(bounds, value, j) ==> i == j,
{
    lemma_some_bucket(bounds, value, 0);
    assert forall|i: int, j: int|
        in_bucket(bounds, value, i) && in_bucket(bounds, value, j) implies i == j by {
        if i < j {
            assert(bounds[i] <= bounds[j - 1]);
        } else if j < i {
            assert(bounds[j] <= bounds[i - 1]);
        }
    }
}

proof fn lemma_some_bucket(bounds: Seq<u64>, value: u64, from: int)
    requires
        0 <= from <= bounds.len(),
        from == 0 || bounds[from - 1] < value,
    ensures
        exists|i: int| in_bucket(bounds, value, i),
    decreases bounds.len() - from,
{
    if from < bounds.len() && bounds[from] < value {
        lemma_some_bucket(bounds, value, from + 1);
    } else {
        assert(in_bucket(bounds, value, from));
    }
}

/// The counts of all buckets add up to the number of observations.
pub proof fn counts_add_up(bounds: Seq<u64>, observations: Seq<u64>)
    requires
        ascending(bounds),
    ensures
        observed_below(bounds, observations, bounds.len() as int + 1) == observations.len(),
    decreases observations.len(),
{
    let n = bounds.len() + 1;
    if observations.len() == 0 {
        lemma_none_observed(bounds, observations, n as int);
    } else {
        let front = observations.drop_last();
        let value = observations.last();
        counts_add_up(bounds, front);
        one_bucket_per_value(bounds, value);
        let b = choose|i: int| in_bucket(bounds, value, i);
        lemma_one_more(bounds, observations, b, n as int);
    }
}

proof fn lemma_none_observed(bounds: Seq<u64>, observations: Seq<u64>, n: int)
    requires
        observations.len() == 0,
    ensures
        observed_below(bounds, observations, n) == 0,
    decreases n,
{
    if n > 0 {
        lemma_none_observed(bounds, observations, n - 1);
    }
}

proof fn lemma_one_more(bounds: Seq<u64>, observations: Seq<u64>, b: int, n: int)
    requires
        observations.len() > 0,
        in_bucket(bounds, observations.last(), b),
        forall|i: int| in_bucket(bounds, observations.last(), i) ==> i == b,
    ensures
        observed_below(bounds, observations, n) == observed_below(
            bounds,
            observations.drop_last(),
            n,
        ) + if b < n {
            1nat
        } else {
            0nat
        },
    decreases n,
{
    if n > 0 {
        lemma_one_more(bounds, observations, b, n - 1);
    }
}

/// A bucket holds what is above every limit before it and not above any from its own
/// on.
pub proof fn buckets_are_bounded(bounds: Seq<u64>, value: u64, idx: int)
    requires
        ascending(bounds),
        in_bucket(bounds, value, idx),
    ensures
        0 <= idx <= bounds.len(),
        forall|j: int| 0 <= j < idx ==> #[trigger] bounds[j] < value,
        forall|j: int| idx <= j < bounds.len() ==> value <= #[trigger] bounds[j],
{
    assert forall|j: int| 0 <= j < idx implies #[trigger] bounds[j] < value by {
        if j < idx - 1 {
            assert(bounds[j] < bounds[idx - 1]);
        }
    }
    assert forall|j: int| idx <= j < bounds.len() implies value <= #[trigger] bounds[j] by {
        if j > idx {
            assert(bounds[idx] < bounds[j]);
        }
    }
}

/// The count of a bucket is how many observations are in it.
pub proof fn observations_are_counted(bounds: Seq<u64>, observations: Seq<u64>, idx: int)
    ensures
        observed(bounds, observations, idx) == observations.filter(
            |v: u64| in_bucket(bounds, v, idx),
        ).len(),
    decreases observations.len(),
{
    reveal(Seq::filter);
    if observations.len() > 0 {
        observations_are_counted(bounds, observations.drop_last(), idx);
    }
}

/// Every value falls into a bucket: below the first limit into the first, and above
/// every limit into the last.
pub proof fn every_value_has_a_bucket(bounds: Seq<u64>, value: u64, idx: int)
    requires
        ascending(bounds),
        0 <= idx <= bounds.len(),
        forall|j: int| 0 <= j < idx ==> #[trigger] bounds[j] < value,
        forall|j: int| idx <= j < bounds.len() ==> value <= #[trigger] bounds[j],
    ensures
        in_bucket(bounds, value, idx),
        observed(bounds, seq![value], idx) == 1,
{
    reveal_with_fuel(observed, 2);
    if idx > 0 {
        assert(bounds[idx - 1] < value);
    }
    if idx < bounds.len() {
        assert(value <= bounds[idx]);
    }
}

/// Buckets border on each other: one begins where the one before it ends, the first
/// at nought, and the last has no end.
pub proof fn buckets_border_on_each_other<const N: usize>(
    bounds: BucketBounds<N>,
    idx: usize,
    upper: Option<u64>,
    lower: u64,
    first: u64,
)
    requires
        idx < usize::MAX,
        call_ensures(BucketBounds::<N>::upper_bound, (&bounds, idx), upper),
        call_ensures(BucketBounds::<N>::lower_bound, (&bounds, (idx + 1) as usize), lower),
        call_ensures(BucketBounds::<N>::lower_bound, (&bounds, 0), first),
    ensures
        first == 0,
        idx < bounds.limits().len() ==> upper == Some(lower),
        idx >= bounds.limits().len() ==> upper is None,
{
}

} // verus!

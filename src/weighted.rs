use vstd::prelude::*;

verus! {

/// Why a set of weights cannot be sampled from.
#[derive(Copy, Clone, Debug, PartialEq, Eq, Structural)]
pub enum WeightedError {
    /// No weight was given.
    NoItem,
    /// A weight is negative.
    InvalidWeight,
    /// Every weight is zero.
    AllWeightsZero,
}

/// The sum of the first `k` weights.
pub open spec fn prefix_sum(w: Seq<i32>, k: int) -> int
    decreases k,
{
    if k <= 0 {
        0
    } else {
        prefix_sum(w, k - 1) + w[k - 1]
    }
}

/// The sum of the weights above zero.
pub open spec fn positive_sum(w: Seq<i32>, k: int) -> int
    decreases k,
{
    if k <= 0 {
        0
    } else if w[k - 1] > 0 {
        positive_sum(w, k - 1) + w[k - 1]
    } else {
        positive_sum(w, k - 1)
    }
}

pub open spec fn has_negative(w: Seq<i32>) -> bool {
    exists|i: int| 0 <= i < w.len() && #[trigger] w[i] < 0
}

/// What filling from `w` gives: the total weight, or why there is none.
pub open spec fn fill_result(w: Seq<i32>) -> Result<i32, WeightedError> {
    if w.len() == 0 {
        Err(WeightedError::NoItem)
    } else if has_negative(w) {
        Err(WeightedError::InvalidWeight)
    } else if prefix_sum(w, w.len() as int) == 0 {
        Err(WeightedError::AllWeightsZero)
    } else {
        Ok(prefix_sum(w, w.len() as int) as i32)
    }
}

/// Running sums in non-decreasing order, as the binary search needs them.
pub open spec fn is_sorted_table(c: Seq<i32>) -> bool {
    forall|i: int, j: int| 0 <= i <= j < c.len() ==> c[i] <= c[j]
}

/// The bucket that a drawn value falls in: the number of running sums that do not
/// exceed it.
pub open spec fn bucket_of(cumulative: Seq<i32>, chosen: int, r: int) -> bool {
    &&& 0 <= r <= cumulative.len()
    &&& (r == 0 || cumulative[r - 1] <= chosen)
    &&& (r == cumulative.len() || chosen < cumulative[r])
}

proof fn lemma_prefix_sum_mono(w: Seq<i32>, i: int, j: int)
    requires
        0 <= i <= j <= w.len(),
        forall|k: int| 0 <= k < w.len() ==> #[trigger] w[k] >= 0,
    ensures
        prefix_sum(w, i) <= prefix_sum(w, j),
    decreases j - i,
{
    if i < j {
        lemma_prefix_sum_mono(w, i, j - 1);
    }
}

proof fn lemma_prefix_le_positive(w: Seq<i32>, k: int)
    requires
        0 <= k <= w.len(),
        forall|i: int| 0 <= i < k ==> #[trigger] w[i] >= 0,
    ensures
        prefix_sum(w, k) == positive_sum(w, k),
        0 <= prefix_sum(w, k),
    decreases k,
{
    if k > 0 {
        lemma_prefix_le_positive(w, k - 1);
    }
}

proof fn lemma_positive_mono(w: Seq<i32>, i: int, j: int)
    requires
        0 <= i <= j <= w.len(),
    ensures
        positive_sum(w, i) <= positive_sum(w, j),
    decreases j - i,
{
    if i < j {
        lemma_positive_mono(w, i, j - 1);
    }
}

/// A reusable table of running weight sums for weighted sampling: it is cleared
/// and filled again for each set of weights, keeping its buffer.
#[derive(Clone, Debug)]
pub struct CumulativeWeightsWrapper<X> {
    cumulative_weights: Vec<X>,
    total_weight: Option<X>,
}

impl<X> CumulativeWeightsWrapper<X> {
    /// The running sums, all weights but the last.
    pub closed spec fn cumulative(&self) -> Seq<X> {
        self.cumulative_weights@
    }

    /// The sum of all weights, once filled.
    pub closed spec fn total(&self) -> Option<X> {
        self.total_weight
    }

    /// An empty table.
    pub fn new() -> (r: Self)
        ensures
            r.cumulative().len() == 0,
            r.total() is None,
    {
        CumulativeWeightsWrapper { cumulative_weights: Vec::new(), total_weight: None }
    }

    /// An empty table with room for `capacity` weights.
    pub fn with_capacity(capacity: usize) -> (r: Self)
        ensures
            r.cumulative().len() == 0,
            r.total() is None,
    {
        CumulativeWeightsWrapper {
            cumulative_weights: Vec::with_capacity(capacity),
            total_weight: None,
        }
    }
}

/// Relies on rand's `Uniform::new(0, total)`, sampled once: a value in `[0, total)`.
/// `Uniform::new` panics unless `0 < total`.
#[verifier::external_body]
fn uniform_below(rng: &mut rand_pcg::Lcg64Xsh32, total: i32) -> (r: i32)
    requires
        0 < total,
    ensures
        0 <= r < total,
{
    rand::distributions::Distribution::sample(&rand::distributions::Uniform::new(0, total), rng)
}

#[verifier::external_type_specification]
#[verifier::external_body]
pub struct ExLcg64Xsh32(rand_pcg::Lcg64Xsh32);

impl CumulativeWeightsWrapper<i32> {
    /// Fills the table from `weights`. Fails with `NoItem` on no weights, with
    /// `InvalidWeight` where one is negative, with `AllWeightsZero` where all are
    /// zero, and is then left empty; else returns the total weight.
    pub fn fill(&mut self, weights: &[i32]) -> (r: Result<i32, WeightedError>)
        requires
            positive_sum(weights@, weights@.len() as int) <= i32::MAX,
        ensures
            r == fill_result(weights@),
            r is Ok ==> final(self).total() == Some(r.unwrap()),
            r is Ok ==> final(self).cumulative().len() + 1 == weights@.len(),
            r is Ok ==> forall|i: int|
                0 <= i < final(self).cumulative().len() ==> #[trigger] final(self).cumulative()[i]
                    == prefix_sum(weights@, i + 1),
            r is Ok ==> is_sorted_table(final(self).cumulative()),
            r is Err ==> final(self).cumulative().len() == 0 && final(self).total() is None,
    {
        self.cumulative_weights.clear();
        self.total_weight = None;
        let n = weights.len();
        if n == 0 {
            return Err(WeightedError::NoItem);
        }
        let mut total: i32 = weights[0];
        if total < 0 {
            return Err(WeightedError::InvalidWeight);
        }
        let mut k: usize = 1;
        assert(prefix_sum(weights@, 0) == 0);
        while k < n
            invariant
                n == weights@.len(),
                1 <= k <= n,
                positive_sum(weights@, n as int) <= i32::MAX,
                forall|i: int| 0 <= i < k ==> #[trigger] weights@[i] >= 0,
                total == prefix_sum(weights@, k as int),
                self.total_weight is None,
                self.cumulative_weights@.len() + 1 == k,
                forall|i: int|
                    0 <= i < self.cumulative_weights@.len() ==> #[trigger] self.cumulative_weights@[i]
                        == prefix_sum(weights@, i + 1),
            decreases n - k,
        {
            let w = weights[k];
            if w < 0 {
                self.cumulative_weights.clear();
                return Err(WeightedError::InvalidWeight);
            }
            proof {
                lemma_prefix_le_positive(weights@, k + 1);
                lemma_positive_mono(weights@, k + 1, n as int);
            }
            self.cumulative_weights.push(total);
            total = total + w;
            k += 1;
        }
        if total == 0 {
            self.cumulative_weights.clear();
            return Err(WeightedError::AllWeightsZero);
        }
        self.total_weight = Some(total);
        proof {
            lemma_filled_sorted(self, weights@);
        }
        Ok(total)
    }

    /// The index of the weight whose bucket holds `chosen`: the first running sum
    /// above it, found by binary search.
    pub fn sample_index(&self, chosen: i32) -> (r: usize)
        requires
            self.total() is Some,
            0 <= chosen < self.total().unwrap(),
            is_sorted_table(self.cumulative()),
        ensures
            bucket_of(self.cumulative(), chosen as int, r as int),
    {
        let mut lo: usize = 0;
        let mut hi: usize = self.cumulative_weights.len();
        while lo < hi
            invariant
                0 <= lo <= hi <= self.cumulative_weights@.len(),
                lo == 0 || self.cumulative_weights@[lo - 1] <= chosen,
                hi == self.cumulative_weights@.len() || chosen < self.cumulative_weights@[hi as int],
                forall|i: int, j: int|
                    0 <= i <= j < self.cumulative().len() ==> self.cumulative()[i]
                        <= self.cumulative()[j],
            decreases hi - lo,
        {
            let mid = lo + (hi - lo) / 2;
            if self.cumulative_weights[mid] <= chosen {
                lo = mid + 1;
            } else {
                hi = mid;
            }
        }
        lo
    }

    /// Draws an index with probability proportional to its weight.
    pub fn sample(&self, rng: &mut rand_pcg::Lcg64Xsh32) -> (r: usize)
        requires
            self.total() is Some,
            0 < self.total().unwrap(),
            is_sorted_table(self.cumulative()),
        ensures
            exists|c: int| 0 <= c < self.total().unwrap() && bucket_of(self.cumulative(), c, r as int),
    {
        let total = match self.total_weight {
            Some(t) => t,
            None => 0,
        };
        let chosen = uniform_below(rng, total);
        self.sample_index(chosen)
    }
}

proof fn lemma_filled_sorted(t: &CumulativeWeightsWrapper<i32>, w: Seq<i32>)
    requires
        fill_result(w) is Ok,
        t.cumulative().len() + 1 == w.len(),
        forall|i: int| 0 <= i < t.cumulative().len() ==> #[trigger] t.cumulative()[i] == prefix_sum(w, i + 1),
    ensures
        is_sorted_table(t.cumulative()),
{
    assert forall|k: int| 0 <= k < w.len() implies #[trigger] w[k] >= 0 by {
        if w[k] < 0 {
            assert(has_negative(w));
        }
    }
    assert forall|i: int, j: int| 0 <= i <= j < t.cumulative().len() implies t.cumulative()[i]
        <= t.cumulative()[j] by {
        lemma_prefix_sum_mono(w, i + 1, j + 1);
    }
}

/// A drawn value below the total always lands on a weight above zero: items of
/// weight zero are never chosen.
pub proof fn lemma_bucket_has_weight(t: &CumulativeWeightsWrapper<i32>, w: Seq<i32>, chosen: int, r: int)
    requires
        fill_result(w) is Ok,
        t.total() == Some(fill_result(w).unwrap()),
        t.cumulative().len() + 1 == w.len(),
        forall|i: int| 0 <= i < t.cumulative().len() ==> #[trigger] t.cumulative()[i] == prefix_sum(w, i + 1),
        0 <= chosen < t.total().unwrap(),
        bucket_of(t.cumulative(), chosen, r),
    ensures
        0 <= r < w.len(),
        w[r] > 0,
{
    assert forall|k: int| 0 <= k < w.len() implies #[trigger] w[k] >= 0 by {
        if w[k] < 0 {
            assert(has_negative(w));
        }
    }
    lemma_prefix_le_positive(w, w.len() as int);
    assert(prefix_sum(w, r) <= chosen);
    assert(chosen < prefix_sum(w, r + 1));
}

} // verus!

//! Streaming minimum / maximum / sum / count over a sequence of samples.
//!
//! Samples are durations in integer nanoseconds. A summary abstracts to the
//! sequence of samples it has observed (its view); the stored aggregates are
//! tied to that sequence by the well-formedness predicate, so `count`, `sum`,
//! `min` and `max` always report exactly the statistics of the observed
//! samples.

use vstd::prelude::*;

verus! {

/// Sum of a sequence of nanosecond samples.
pub open spec fn seq_sum(s: Seq<u64>) -> int
    decreases s.len(),
{
    if s.len() == 0 {
        0
    } else {
        seq_sum(s.drop_last()) + s.last()
    }
}

/// Minimum of a sequence of nanosecond samples. The empty sequence yields
/// `u64::MAX`, the seed a streaming aggregator starts from so that the first
/// sample installs the true minimum without a branch.
pub open spec fn seq_min(s: Seq<u64>) -> int
    decreases s.len(),
{
    if s.len() == 0 {
        u64::MAX as int
    } else {
        let m = seq_min(s.drop_last());
        if s.last() < m {
            s.last() as int
        } else {
            m
        }
    }
}

/// Maximum of a sequence of nanosecond samples. The empty sequence yields `0`,
/// the matching seed for the maximum: no sample is below it.
pub open spec fn seq_max(s: Seq<u64>) -> int
    decreases s.len(),
{
    if s.len() == 0 {
        0
    } else {
        let m = seq_max(s.drop_last());
        if s.last() > m {
            s.last() as int
        } else {
            m
        }
    }
}

/// The sum of a sequence of `u64` values is non-negative and at most
/// `len * u64::MAX`.
pub proof fn lemma_seq_sum_bounds(s: Seq<u64>)
    ensures
        0 <= seq_sum(s) <= s.len() * u64::MAX,
    decreases s.len(),
{
    if s.len() > 0 {
        lemma_seq_sum_bounds(s.drop_last());
        assert((s.len() - 1) * u64::MAX + u64::MAX == s.len() * u64::MAX) by (nonlinear_arith);
    }
}

/// Law: every observed sample lies between the reported extrema.
pub proof fn lemma_extrema_bound_samples(s: Seq<u64>, i: int)
    requires
        0 <= i < s.len(),
    ensures
        seq_min(s) <= s[i] <= seq_max(s),
    decreases s.len(),
{
    if i < s.len() - 1 {
        lemma_extrema_bound_samples(s.drop_last(), i);
        assert(s.drop_last()[i] == s[i]);
    }
}

/// An exact rational value: `num / den`. Averages and rates are reported in
/// this form so that the verified core never rounds; callers convert to a
/// floating-point value if they want one.
#[derive(Debug, Clone, Copy, PartialEq, Eq, Structural)]
pub struct Ratio {
    pub num: u128,
    pub den: u64,
}

/// Streaming statistics over nanosecond samples: count, sum, minimum and
/// maximum. Accessors for the extrema and the average return nothing while no
/// sample has been observed.
#[derive(Clone, Copy)]
pub struct Summary {
    min_ns: u64,
    max_ns: u64,
    sum_ns: u128,
    count: usize,
    samples: Ghost<Seq<u64>>,
}

impl View for Summary {
    type V = Seq<u64>;

    closed spec fn view(&self) -> Seq<u64> {
        self.samples@
    }
}

impl Summary {
    /// The stored aggregates are exactly the statistics of the observed
    /// samples. Every constructor establishes this and every method preserves
    /// it.
    pub closed spec fn wf(&self) -> bool {
        &&& self.count == self@.len()
        &&& self.sum_ns == seq_sum(self@)
        &&& self.min_ns == seq_min(self@)
        &&& self.max_ns == seq_max(self@)
    }

    /// A fresh summary: no samples observed.
    pub fn new() -> (r: Summary)
        ensures
            r.wf(),
            r@ == Seq::<u64>::empty(),
    {
        Summary {
            min_ns: u64::MAX,
            max_ns: 0,
            sum_ns: 0,
            count: 0,
            samples: Ghost(Seq::empty()),
        }
    }

    /// Observe one sample.
    pub fn update(&mut self, value: u64)
        requires
            old(self).wf(),
            old(self)@.len() < usize::MAX,
        ensures
            final(self).wf(),
            final(self)@ == old(self)@.push(value),
    {
        proof {
            lemma_seq_sum_bounds(self@);
            assert(self@.len() * u64::MAX + u64::MAX <= usize::MAX * (u64::MAX as int))
                by (nonlinear_arith)
                requires self@.len() < usize::MAX;
            assert(usize::MAX * (u64::MAX as int) < u128::MAX) by (nonlinear_arith)
                requires usize::MAX <= u64::MAX;
        }
        if value < self.min_ns {
            self.min_ns = value;
        }
        if value > self.max_ns {
            self.max_ns = value;
        }
        self.sum_ns = self.sum_ns + value as u128;
        self.count = self.count + 1;
        proof {
            let s = self.samples@;
            self.samples@ = self.samples@.push(value);
            assert(self.samples@.drop_last() =~= s);
        }
    }

    /// Observe one optional sample; absent samples are ignored.
    pub fn update_optional(&mut self, value: Option<u64>)
        requires
            old(self).wf(),
            old(self)@.len() < usize::MAX,
        ensures
            final(self).wf(),
            final(self)@ == match value {
                Some(v) => old(self)@.push(v),
                None => old(self)@,
            },
    {
        if let Some(v) = value {
            self.update(v);
        }
    }

    /// The average sample, as an exact rational, or nothing if no sample has
    /// been observed.
    pub fn average(&self) -> (r: Option<Ratio>)
        requires
            self.wf(),
        ensures
            r == if self@.len() == 0 {
                None::<Ratio>
            } else {
                Some(Ratio { num: seq_sum(self@) as u128, den: self@.len() as u64 })
            },
    {
        if self.count > 0 {
            Some(Ratio { num: self.sum_ns, den: self.count as u64 })
        } else {
            None
        }
    }

    /// The smallest observed sample, or nothing if no sample has been observed.
    pub fn min(&self) -> (r: Option<u64>)
        requires
            self.wf(),
        ensures
            r == if self@.len() == 0 {
                None::<u64>
            } else {
                Some(seq_min(self@) as u64)
            },
    {
        if self.count > 0 {
            Some(self.min_ns)
        } else {
            None
        }
    }

    /// The largest observed sample, or nothing if no sample has been observed.
    pub fn max(&self) -> (r: Option<u64>)
        requires
            self.wf(),
        ensures
            r == if self@.len() == 0 {
                None::<u64>
            } else {
                Some(seq_max(self@) as u64)
            },
    {
        if self.count > 0 {
            Some(self.max_ns)
        } else {
            None
        }
    }

    /// The sum of all observed samples; `0` when none has been observed.
    pub fn sum(&self) -> (r: u128)
        requires
            self.wf(),
        ensures
            r == seq_sum(self@),
    {
        self.sum_ns
    }

    /// How many samples have been observed.
    pub fn count(&self) -> (r: usize)
        requires
            self.wf(),
        ensures
            r == self@.len(),
    {
        self.count
    }

    /// Fold another summary into this one, taking the minimum and maximum
    /// across both and adding sums and counts. A source that has observed no
    /// sample leaves the destination untouched: its seeded extrema never reach
    /// the destination.
    pub fn merge_from(&mut self, src: &Summary)
        requires
            old(self).wf(),
            src.wf(),
            old(self)@.len() + src@.len() <= usize::MAX,
        ensures
            final(self).wf(),
            final(self)@ == old(self)@ + src@,
    {
        proof {
            lemma_seq_sum_bounds(self@);
            lemma_seq_sum_bounds(src@);
            lemma_fold_concat(self@, src@);
            assert(seq_sum(self@) + seq_sum(src@) <= (self@.len() + src@.len()) * u64::MAX)
                by (nonlinear_arith)
                requires
                    0 <= seq_sum(self@) <= self@.len() * u64::MAX,
                    0 <= seq_sum(src@) <= src@.len() * u64::MAX;
            assert((self@.len() + src@.len()) * u64::MAX <= usize::MAX * (u64::MAX as int))
                by (nonlinear_arith)
                requires self@.len() + src@.len() <= usize::MAX;
            assert(usize::MAX * (u64::MAX as int) < u128::MAX) by (nonlinear_arith)
                requires usize::MAX <= u64::MAX;
        }
        if src.count > 0 {
            if src.min_ns < self.min_ns {
                self.min_ns = src.min_ns;
            }
            if src.max_ns > self.max_ns {
                self.max_ns = src.max_ns;
            }
            self.sum_ns = self.sum_ns + src.sum_ns;
            self.count = self.count + src.count;
            proof {
                self.samples@ = self.samples@ + src.samples@;
            }
        } else {
            proof {
                assert(src@ =~= Seq::<u64>::empty());
                assert(self@ + src@ =~= self@);
            }
        }
    }
}

impl Default for Summary {
    /// Same as `Summary::new`: no samples observed.
    fn default() -> (r: Summary)
        ensures
            r.wf(),
            r@ == Seq::<u64>::empty(),
    {
        Summary::new()
    }
}

/// The statistics of a concatenation combine the statistics of its parts:
/// sums add, and the extrema are the tighter of the two sides.
pub proof fn lemma_fold_concat(a: Seq<u64>, b: Seq<u64>)
    ensures
        seq_sum(a + b) == seq_sum(a) + seq_sum(b),
        seq_min(a + b) == if seq_min(b) < seq_min(a) { seq_min(b) } else { seq_min(a) },
        seq_max(a + b) == if seq_max(b) > seq_max(a) { seq_max(b) } else { seq_max(a) },
    decreases b.len(),
{
    if b.len() == 0 {
        assert(a + b =~= a);
    } else {
        lemma_fold_concat(a, b.drop_last());
        assert((a + b).drop_last() =~= a + b.drop_last());
        assert((a + b).last() == b.last());
    }
}

} // verus!

//! Bucketed request counter over a fixed wall-clock window.
//!
//! The summary keeps one counter per window of `window_size_ns` nanoseconds,
//! starting from the instant `start` was called. A request incremented at
//! monotonic time `t` lands in window `(t - start) / window_size_ns`; windows
//! that saw no request appear as explicit zeroes. Instantaneous and average
//! rates are reported as exact rationals ([`Ratio`]).
//!
//! Callers pass the current monotonic clock reading in nanoseconds; the
//! summary itself never reads a clock, so its whole behaviour is specified.

use vstd::prelude::*;

use crate::summary::Ratio;

verus! {

/// Nanoseconds in one second, for converting window counts to per-second rates.
pub const NANOS_PER_SEC: u64 = 1_000_000_000;

/// Why a read or an increment was refused.
#[derive(Debug, Clone, Copy, PartialEq, Eq, Structural)]
pub enum RpsSummaryError {
    /// The summary was read or incremented before `start`.
    NotStarted,
    /// A rate was read while no request had been counted.
    EmptyRequestCount,
}

/// Sum of a sequence of per-window counters.
pub open spec fn seq_usize_sum(s: Seq<usize>) -> int
    decreases s.len(),
{
    if s.len() == 0 {
        0
    } else {
        seq_usize_sum(s.drop_last()) + s.last()
    }
}

pub proof fn lemma_usize_sum_nonneg(s: Seq<usize>)
    ensures
        0 <= seq_usize_sum(s),
    decreases s.len(),
{
    if s.len() > 0 {
        lemma_usize_sum_nonneg(s.drop_last());
    }
}

/// Each counter is at most the sum of all counters.
pub proof fn lemma_usize_elem_le_sum(s: Seq<usize>, i: int)
    requires
        0 <= i < s.len(),
    ensures
        s[i] <= seq_usize_sum(s),
    decreases s.len(),
{
    if i == s.len() - 1 {
        lemma_usize_sum_nonneg(s.drop_last());
    } else {
        lemma_usize_elem_le_sum(s.drop_last(), i);
        assert(s.drop_last()[i] == s[i]);
    }
}

/// Replacing one counter changes the sum by the difference.
pub proof fn lemma_usize_sum_update(s: Seq<usize>, i: int, v: usize)
    requires
        0 <= i < s.len(),
    ensures
        seq_usize_sum(s.update(i, v)) == seq_usize_sum(s) - s[i] + v,
    decreases s.len(),
{
    if i == s.len() - 1 {
        assert(s.update(i, v).drop_last() =~= s.drop_last());
    } else {
        lemma_usize_sum_update(s.drop_last(), i, v);
        assert(s.update(i, v).drop_last() =~= s.drop_last().update(i, v));
    }
}

/// A prefix of the counters sums to at most the whole.
pub proof fn lemma_usize_sum_take_le(s: Seq<usize>, i: int)
    requires
        0 <= i <= s.len(),
    ensures
        seq_usize_sum(s.take(i)) <= seq_usize_sum(s),
    decreases s.len() - i,
{
    if i == s.len() {
        assert(s.take(i) =~= s);
    } else {
        lemma_usize_sum_take_le(s, i + 1);
        assert(s.take(i + 1).drop_last() =~= s.take(i));
        assert(seq_usize_sum(s.take(i + 1)) == seq_usize_sum(s.take(i)) + s[i]);
    }
}

/// What an [`RpsSummary`] abstracts to.
#[verifier::ext_equal]
pub struct RpsView {
    /// Requests counted per window, in window order.
    pub counts: Seq<usize>,
    /// Length of one window in nanoseconds.
    pub window_ns: u64,
    /// The monotonic clock reading at `start`, if started.
    pub start: Option<u64>,
    /// Elapsed time (relative to the start instant current at that moment) of
    /// every increment recorded since construction or the last reset.
    pub increments: Seq<u64>,
}

/// The highest window index any recorded increment landed in, or `-1` with no
/// increment recorded. The window size is fixed at construction, so each
/// recorded elapsed time divided by it is the window that increment hit.
pub open spec fn highest_window_index(incs: Seq<u64>, window_ns: u64) -> int
    decreases incs.len(),
{
    if incs.len() == 0 {
        -1
    } else {
        let m = highest_window_index(incs.drop_last(), window_ns);
        let i = (incs.last() as int) / (window_ns as int);
        if i > m {
            i
        } else {
            m
        }
    }
}

/// Invariant of a reachable summary: the counters sum to the number of
/// increments taken, and the counter vector is grown lazily, so its length is
/// one more than the highest window index ever incremented.
pub open spec fn rps_inv(v: RpsView) -> bool {
    &&& seq_usize_sum(v.counts) == v.increments.len()
    &&& v.increments.len() <= usize::MAX
    &&& (v.start is None ==> v.counts.len() == 0 && v.increments.len() == 0)
    &&& (v.counts.len() > 0 ==> v.counts.last() >= 1)
    &&& v.counts.len() == 1 + highest_window_index(v.increments, v.window_ns)
}

/// The view of a freshly constructed (or freshly reset) summary.
pub open spec fn fresh_rps(window_ns: u64) -> RpsView {
    RpsView {
        counts: Seq::empty(),
        window_ns: window_ns,
        start: None,
        increments: Seq::empty(),
    }
}

/// The window that a request incremented at monotonic time `now_ns` falls in.
pub open spec fn window_index(v: RpsView, now_ns: u64) -> int
    recommends
        v.start is Some,
        v.window_ns > 0,
{
    (now_ns - v.start->Some_0) / (v.window_ns as int)
}

/// What `increment_request_count` asks of its caller: when the summary is
/// started, the window size is positive (the original would divide by zero
/// otherwise), the clock has not run backwards, and the machine limits on the
/// window index and the number of increments are respected.
pub open spec fn can_increment(v: RpsView, now_ns: u64) -> bool {
    v.start is Some ==> {
        &&& v.window_ns > 0
        &&& now_ns >= v.start->Some_0
        &&& window_index(v, now_ns) < usize::MAX
        &&& v.increments.len() < usize::MAX
    }
}

/// The view after counting one request at `now_ns`: the counter of the window
/// that `now_ns` falls in grows by one, with any skipped windows recorded as
/// zero, and the increment's elapsed time is appended to the record. Before
/// `start`, nothing changes.
pub open spec fn rps_after_increment(v: RpsView, now_ns: u64) -> RpsView {
    if v.start is None {
        v
    } else {
        let idx = window_index(v, now_ns);
        let grown = if idx < v.counts.len() {
            v.counts
        } else {
            v.counts + Seq::new((idx + 1 - v.counts.len()) as nat, |j: int| 0usize)
        };
        RpsView {
            counts: grown.update(idx, (grown[idx] + 1) as usize),
            increments: v.increments.push((now_ns - v.start->Some_0) as u64),
            ..v
        }
    }
}

/// Law: an increment taken at monotonic time `now_ns` lands in the window
/// `(now_ns - start) / window_ns` and nowhere else — every other counter keeps
/// its value, with skipped windows recorded as zero — and the counter total
/// grows by exactly one. Together with the invariant [`rps_inv`] this keeps
/// the counters summing to the number of increments taken.
pub proof fn lemma_increment_lands_in_its_window(v: RpsView, now_ns: u64)
    requires
        rps_inv(v),
        v.start is Some,
        can_increment(v, now_ns),
    ensures
        ({
            let w = rps_after_increment(v, now_ns);
            let idx = window_index(v, now_ns);
            &&& w.counts.len() == if idx < v.counts.len() {
                v.counts.len() as int
            } else {
                idx + 1
            }
            &&& w.counts[idx] == 1 + if idx < v.counts.len() {
                v.counts[idx] as int
            } else {
                0
            }
            &&& forall|j: int|
                0 <= j < w.counts.len() && j != idx ==> w.counts[j] == if j < v.counts.len() {
                    v.counts[j] as int
                } else {
                    0
                }
            &&& seq_usize_sum(w.counts) == seq_usize_sum(v.counts) + 1
            &&& w.increments == v.increments.push((now_ns - v.start->Some_0) as u64)
        }),
{
    let idx = window_index(v, now_ns);
    let grown = if idx < v.counts.len() {
        v.counts
    } else {
        v.counts + Seq::new((idx + 1 - v.counts.len()) as nat, |j: int| 0usize)
    };
    assert(grown.subrange(0, v.counts.len() as int) =~= v.counts);
    lemma_usize_sum_zero_suffix(v.counts, grown);
    lemma_usize_elem_le_sum(grown, idx);
    lemma_usize_sum_update(grown, idx, (grown[idx] + 1) as usize);
}

/// Law: `reset` restores every pre-started invariant, and a `start` right
/// after it yields a well-formed summary with no counts and no increments,
/// exactly as a freshly constructed and then started one.
pub proof fn lemma_reset_restores_prestart(window_ns: u64, now_ns: u64)
    ensures
        rps_inv(fresh_rps(window_ns)),
        fresh_rps(window_ns).start is None,
        fresh_rps(window_ns).counts == Seq::<usize>::empty(),
        fresh_rps(window_ns).increments == Seq::<u64>::empty(),
        rps_inv((RpsView { start: Some(now_ns), ..fresh_rps(window_ns) })),
{
}

/// Bucketed request counter over a fixed window, with a start instant set by
/// `start` and cleared by `reset`.
pub struct RpsSummary {
    request_counts: Vec<usize>,
    window_size_ns: u64,
    start_ns: Option<u64>,
    increments: Ghost<Seq<u64>>,
}

impl View for RpsSummary {
    type V = RpsView;

    closed spec fn view(&self) -> RpsView {
        RpsView {
            counts: self.request_counts@,
            window_ns: self.window_size_ns,
            start: self.start_ns,
            increments: self.increments@,
        }
    }
}

impl RpsSummary {
    pub open spec fn wf(&self) -> bool {
        rps_inv(self@)
    }

    /// A fresh summary over windows of `window_size_ns` nanoseconds, not yet
    /// started.
    pub fn new(window_size_ns: u64) -> (r: RpsSummary)
        ensures
            r.wf(),
            r@ == fresh_rps(window_size_ns),
    {
        RpsSummary {
            request_counts: Vec::new(),
            window_size_ns,
            start_ns: None,
            increments: Ghost(Seq::empty()),
        }
    }

    /// Install `now_ns` as the start instant. Counting before this call is an
    /// error; calling it again re-bases the window clock.
    pub fn start(&mut self, now_ns: u64)
        requires
            old(self).wf(),
        ensures
            final(self).wf(),
            final(self)@ == (RpsView { start: Some(now_ns), ..old(self)@ }),
    {
        self.start_ns = Some(now_ns);
    }

    /// Count one request at monotonic time `now_ns`. Fails if the summary has
    /// not been started; otherwise the counter of the window that `now_ns`
    /// falls in grows by one, with any skipped windows recorded as zero.
    pub fn increment_request_count(&mut self, now_ns: u64) -> (r: Result<(), RpsSummaryError>)
        requires
            old(self).wf(),
            can_increment(old(self)@, now_ns),
        ensures
            final(self).wf(),
            r == if old(self)@.start is Some {
                Ok::<(), RpsSummaryError>(())
            } else {
                Err::<(), RpsSummaryError>(RpsSummaryError::NotStarted)
            },
            final(self)@ == rps_after_increment(old(self)@, now_ns),
    {
        let start: u64 = match self.start_ns {
            Some(s) => s,
            None => {
                return Err(RpsSummaryError::NotStarted);
            },
        };
        let elapsed: u64 = now_ns - start;
        let idx128: u128 = (elapsed as u128) / (self.window_size_ns as u128);
        assert(idx128 == window_index(self@, now_ns));
        let idx: usize = idx128 as usize;

        let ghost pre_growth = self.request_counts@;
        while self.request_counts.len() < idx + 1
            invariant
                self.window_size_ns == old(self)@.window_ns,
                self.start_ns == old(self)@.start,
                self.increments@ == old(self)@.increments,
                pre_growth == old(self)@.counts,
                pre_growth.len() <= self.request_counts@.len(),
                self.request_counts@.len() <= pre_growth.len() || self.request_counts@.len() <= idx
                    + 1,
                self.request_counts@.subrange(0, pre_growth.len() as int) == pre_growth,
                forall|j: int|
                    pre_growth.len() <= j < self.request_counts@.len()
                        ==> self.request_counts@[j] == 0,
                idx < usize::MAX,
            decreases idx + 1 - self.request_counts.len(),
        {
            self.request_counts.push(0);
            assert(self.request_counts@.subrange(0, pre_growth.len() as int) =~= pre_growth);
        }

        let ghost mid = self.request_counts@;
        proof {
            lemma_usize_sum_zero_suffix(pre_growth, mid);
            lemma_usize_elem_le_sum(mid, idx as int);
        }
        let c: usize = self.request_counts[idx];
        self.request_counts[idx] = c + 1;
        proof {
            assert(self.request_counts@ =~= mid.update(idx as int, (c + 1) as usize));
            lemma_usize_sum_update(mid, idx as int, (c + 1) as usize);
            assert forall|j: int| 0 <= j < pre_growth.len() implies mid[j] == pre_growth[j] by {
                assert(mid.subrange(0, pre_growth.len() as int)[j] == mid[j]);
            }
            self.increments@ = self.increments@.push(elapsed);
            assert(self.increments@.drop_last() =~= old(self)@.increments);
            assert((elapsed as int) / (self.window_size_ns as int) == idx as int);
            if (idx as int) < pre_growth.len() {
                assert(mid =~= pre_growth);
            } else {
                assert(mid =~= pre_growth + Seq::new(
                    (idx + 1 - pre_growth.len()) as nat,
                    |j: int| 0usize,
                ));
            }
            assert(self@ =~= rps_after_increment(old(self)@, now_ns));
        }
        Ok(())
    }

    /// The rate of the window that `now_ns` falls in: its request count over
    /// one full window, as requests per second. Fails before `start` and while
    /// no request has been counted; yields nothing when the current window has
    /// not received a request yet.
    ///
    /// This is a rate estimate: an in-progress window's count is divided by
    /// the full window size, not by the elapsed part of the window.
    pub fn get_current_rps(&self, now_ns: u64) -> (r: Result<Option<Ratio>, RpsSummaryError>)
        requires
            self.wf(),
            self@.start is Some ==> self@.window_ns > 0 && now_ns >= self@.start->Some_0,
        ensures
            self@.start is None ==> r == Err::<Option<Ratio>, RpsSummaryError>(
                RpsSummaryError::NotStarted,
            ),
            self@.start is Some && self@.counts.len() == 0 ==> r == Err::<
                Option<Ratio>,
                RpsSummaryError,
            >(RpsSummaryError::EmptyRequestCount),
            self@.start is Some && self@.counts.len() > 0 ==> {
                let idx = window_index(self@, now_ns);
                if idx < self@.counts.len() {
                    r == Ok::<Option<Ratio>, RpsSummaryError>(
                        Some(
                            Ratio {
                                num: (self@.counts[idx] * (NANOS_PER_SEC as int)) as u128,
                                den: self@.window_ns,
                            },
                        ),
                    )
                } else {
                    r == Ok::<Option<Ratio>, RpsSummaryError>(None)
                }
            },
    {
        let start: u64 = match self.start_ns {
            Some(s) => s,
            None => {
                return Err(RpsSummaryError::NotStarted);
            },
        };
        if self.request_counts.len() == 0 {
            return Err(RpsSummaryError::EmptyRequestCount);
        }
        let elapsed: u64 = now_ns - start;
        let idx128: u128 = (elapsed as u128) / (self.window_size_ns as u128);
        if idx128 < self.request_counts.len() as u128 {
            let idx: usize = idx128 as usize;
            let count: usize = self.request_counts[idx];
            proof {
                lemma_rate_num_fits(count);
            }
            Ok(Some(Ratio { num: (count as u128) * (NANOS_PER_SEC as u128), den: self.window_size_ns }))
        } else {
            Ok(None)
        }
    }

    /// The average rate since `start`: all counted requests over the elapsed
    /// time, as requests per second. Fails before `start` and while no request
    /// has been counted. At `now_ns == start` the denominator of the reported
    /// rational is zero.
    pub fn get_average_rps(&self, now_ns: u64) -> (r: Result<Option<Ratio>, RpsSummaryError>)
        requires
            self.wf(),
            self@.start is Some ==> now_ns >= self@.start->Some_0,
        ensures
            self@.start is None ==> r == Err::<Option<Ratio>, RpsSummaryError>(
                RpsSummaryError::NotStarted,
            ),
            self@.start is Some && self@.counts.len() == 0 ==> r == Err::<
                Option<Ratio>,
                RpsSummaryError,
            >(RpsSummaryError::EmptyRequestCount),
            self@.start is Some && self@.counts.len() > 0 ==> r == Ok::<
                Option<Ratio>,
                RpsSummaryError,
            >(
                Some(
                    Ratio {
                        num: (seq_usize_sum(self@.counts) * (NANOS_PER_SEC as int)) as u128,
                        den: (now_ns - self@.start->Some_0) as u64,
                    },
                ),
            ),
    {
        let start: u64 = match self.start_ns {
            Some(s) => s,
            None => {
                return Err(RpsSummaryError::NotStarted);
            },
        };
        if self.request_counts.len() == 0 {
            return Err(RpsSummaryError::EmptyRequestCount);
        }
        let mut total: usize = 0;
        let mut i: usize = 0;
        while i < self.request_counts.len()
            invariant
                self.wf(),
                0 <= i <= self.request_counts@.len(),
                total == seq_usize_sum(self.request_counts@.take(i as int)),
            decreases self.request_counts@.len() - i,
        {
            proof {
                lemma_usize_sum_take_le(self.request_counts@, i + 1);
                assert(self.request_counts@.take(i + 1).drop_last() =~= self.request_counts@.take(
                    i as int,
                ));
            }
            total = total + self.request_counts[i];
            i = i + 1;
        }
        proof {
            assert(self.request_counts@.take(self.request_counts@.len() as int)
                =~= self.request_counts@);
        }
        let elapsed: u64 = now_ns - start;
        proof {
            lemma_rate_num_fits(total);
        }
        Ok(Some(Ratio { num: (total as u128) * (NANOS_PER_SEC as u128), den: elapsed }))
    }

    /// The rate of every recorded window, in window order, as requests per
    /// second. Fails before `start` and while no request has been counted.
    pub fn get_all_rps(&self) -> (r: Result<Vec<Ratio>, RpsSummaryError>)
        requires
            self.wf(),
        ensures
            self@.start is None ==> r == Err::<Vec<Ratio>, RpsSummaryError>(
                RpsSummaryError::NotStarted,
            ),
            self@.start is Some && self@.counts.len() == 0 ==> r == Err::<
                Vec<Ratio>,
                RpsSummaryError,
            >(RpsSummaryError::EmptyRequestCount),
            self@.start is Some && self@.counts.len() > 0 ==> r is Ok && {
                let v = r->Ok_0;
                &&& v@.len() == self@.counts.len()
                &&& forall|j: int|
                    0 <= j < v@.len() ==> v@[j] == (Ratio {
                        num: (self@.counts[j] * (NANOS_PER_SEC as int)) as u128,
                        den: self@.window_ns,
                    })
            },
    {
        if self.start_ns.is_none() {
            return Err(RpsSummaryError::NotStarted);
        }
        if self.request_counts.len() == 0 {
            return Err(RpsSummaryError::EmptyRequestCount);
        }
        let mut out: Vec<Ratio> = Vec::new();
        let mut i: usize = 0;
        while i < self.request_counts.len()
            invariant
                self.wf(),
                0 <= i <= self.request_counts@.len(),
                out@.len() == i,
                forall|j: int|
                    0 <= j < i ==> out@[j] == (Ratio {
                        num: (self@.counts[j] * (NANOS_PER_SEC as int)) as u128,
                        den: self@.window_ns,
                    }),
            decreases self.request_counts@.len() - i,
        {
            let count: usize = self.request_counts[i];
            proof {
                lemma_rate_num_fits(count);
            }
            out.push(Ratio { num: (count as u128) * (NANOS_PER_SEC as u128), den: self.window_size_ns });
            i = i + 1;
        }
        Ok(out)
    }

    /// Clear the counters and forget the start instant, returning the summary
    /// to its freshly constructed state.
    pub fn reset(&mut self)
        ensures
            final(self).wf(),
            final(self)@ == fresh_rps(old(self)@.window_ns),
    {
        self.request_counts.clear();
        self.start_ns = None;
        proof {
            self.increments@ = Seq::empty();
            assert(final(self)@ =~= fresh_rps(old(self)@.window_ns));
        }
    }

    /// Whether `start` has been called since construction or the last reset.
    pub fn is_started(&self) -> (r: bool)
        ensures
            r == (self@.start is Some),
    {
        self.start_ns.is_some()
    }

    /// The configured window size in nanoseconds.
    pub fn window_size_ns(&self) -> (r: u64)
        ensures
            r == self@.window_ns,
    {
        self.window_size_ns
    }

    /// How many windows have been recorded so far.
    pub fn num_windows(&self) -> (r: usize)
        ensures
            r == self@.counts.len(),
    {
        self.request_counts.len()
    }
}

impl Default for RpsSummary {
    /// A summary with a zero window size: a placeholder that must be given a
    /// real window (or be left unstarted) before counting.
    fn default() -> (r: RpsSummary)
        ensures
            r.wf(),
            r@ == fresh_rps(0),
    {
        RpsSummary::new(0)
    }
}

/// A window count scaled to a per-second numerator stays within `u128`.
proof fn lemma_rate_num_fits(c: usize)
    ensures
        0 <= c * (NANOS_PER_SEC as int) <= u128::MAX,
{
    assert(c * (NANOS_PER_SEC as int) <= u64::MAX * (NANOS_PER_SEC as int)) by (nonlinear_arith)
        requires
            c <= u64::MAX,
    ;
}

/// Growing a counter vector with zeroes does not change its sum.
proof fn lemma_usize_sum_zero_suffix(pre: Seq<usize>, post: Seq<usize>)
    requires
        pre.len() <= post.len(),
        post.subrange(0, pre.len() as int) == pre,
        forall|j: int| pre.len() <= j < post.len() ==> post[j] == 0,
    ensures
        seq_usize_sum(post) == seq_usize_sum(pre),
    decreases post.len() - pre.len(),
{
    if pre.len() < post.len() {
        assert(post.drop_last().subrange(0, pre.len() as int) =~= pre);
        lemma_usize_sum_zero_suffix(pre, post.drop_last());
    } else {
        assert(post =~= pre);
    }
}

} // verus!

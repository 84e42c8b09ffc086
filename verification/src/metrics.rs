//! The metrics a virtual user gathers while it runs, and their merging.
//!
//! A `Metrics` bundles latency summaries, a windowed request-per-second
//! counter, a status-code histogram and a list of transport-error
//! descriptions. The request loop records into it through the `record_*`
//! operations; when a user stops, its metrics are folded into an overall
//! instance with [`Metrics::merge_from`].
//!
//! Merging adds sums, counts and histograms and takes the extrema across both
//! sides; a source summary that observed nothing leaves the destination's
//! extrema untouched, so merging an empty metrics instance is an identity
//! ([`lemma_merge_empty_is_identity`]). The per-user RPS windows are
//! deliberately not merged: windows of different users cannot be summed
//! without aligning their start instants.

use vstd::prelude::*;

use crate::rps_summary::can_increment;
use crate::rps_summary::fresh_rps;
use crate::rps_summary::rps_after_increment;
use crate::rps_summary::RpsSummary;
use crate::rps_summary::RpsView;
use crate::summary::Summary;

verus! {

/// Total requests recorded for `code` in a histogram held as key/count pairs.
pub open spec fn count_of(pairs: Seq<(u16, usize)>, code: u16) -> int
    decreases pairs.len(),
{
    if pairs.len() == 0 {
        0
    } else {
        count_of(pairs.drop_last(), code) + if pairs.last().0 == code {
            pairs.last().1 as int
        } else {
            0
        }
    }
}

/// The histogram a pair list denotes: every status code maps to its total
/// count, absent codes to zero.
pub open spec fn status_map_of(pairs: Seq<(u16, usize)>) -> Map<u16, int> {
    Map::total(|code: u16| count_of(pairs, code))
}

/// No status code appears in two pairs.
pub open spec fn unique_codes(pairs: Seq<(u16, usize)>) -> bool {
    forall|i: int, j: int| 0 <= i < j < pairs.len() ==> pairs[i].0 != pairs[j].0
}

pub proof fn lemma_count_of_nonneg(pairs: Seq<(u16, usize)>, code: u16)
    ensures
        0 <= count_of(pairs, code),
    decreases pairs.len(),
{
    if pairs.len() > 0 {
        lemma_count_of_nonneg(pairs.drop_last(), code);
    }
}

/// A code that appears in no pair has count zero.
pub proof fn lemma_count_of_absent(pairs: Seq<(u16, usize)>, code: u16)
    requires
        forall|i: int| 0 <= i < pairs.len() ==> pairs[i].0 != code,
    ensures
        count_of(pairs, code) == 0,
    decreases pairs.len(),
{
    if pairs.len() > 0 {
        lemma_count_of_absent(pairs.drop_last(), code);
    }
}

/// With unique codes, the count of a listed code is its single entry.
pub proof fn lemma_count_of_unique_entry(pairs: Seq<(u16, usize)>, i: int)
    requires
        unique_codes(pairs),
        0 <= i < pairs.len(),
    ensures
        count_of(pairs, pairs[i].0) == pairs[i].1,
    decreases pairs.len(),
{
    if i == pairs.len() - 1 {
        assert(forall|j: int|
            0 <= j < pairs.drop_last().len() ==> pairs.drop_last()[j].0 != pairs[i].0);
        lemma_count_of_absent(pairs.drop_last(), pairs[i].0);
    } else {
        assert(pairs.drop_last()[i] == pairs[i]);
        lemma_count_of_unique_entry(pairs.drop_last(), i);
        assert(pairs.last().0 != pairs[i].0);
    }
}

/// Replacing the count in one pair moves every code's total by the difference
/// at that pair's code.
pub proof fn lemma_count_of_update(pairs: Seq<(u16, usize)>, i: int, v: (u16, usize), code: u16)
    requires
        0 <= i < pairs.len(),
        v.0 == pairs[i].0,
    ensures
        count_of(pairs.update(i, v), code) == count_of(pairs, code) + if pairs[i].0 == code {
            v.1 - pairs[i].1
        } else {
            0
        },
    decreases pairs.len(),
{
    if i == pairs.len() - 1 {
        assert(pairs.update(i, v).drop_last() =~= pairs.drop_last());
    } else {
        lemma_count_of_update(pairs.drop_last(), i, v, code);
        assert(pairs.update(i, v).drop_last() =~= pairs.drop_last().update(i, v));
    }
}

/// Extending a prefix of pairs by one adds that pair's contribution.
pub proof fn lemma_count_of_take_succ(pairs: Seq<(u16, usize)>, i: int, code: u16)
    requires
        0 <= i < pairs.len(),
    ensures
        count_of(pairs.take(i + 1), code) == count_of(pairs.take(i), code) + if pairs[i].0
            == code {
            pairs[i].1 as int
        } else {
            0
        },
{
    assert(pairs.take(i + 1).drop_last() =~= pairs.take(i));
}

/// A prefix of pairs contributes at most the whole.
pub proof fn lemma_count_of_take_le(pairs: Seq<(u16, usize)>, i: int, code: u16)
    requires
        0 <= i <= pairs.len(),
    ensures
        count_of(pairs.take(i), code) <= count_of(pairs, code),
    decreases pairs.len() - i,
{
    if i == pairs.len() {
        assert(pairs.take(i) =~= pairs);
    } else {
        lemma_count_of_take_le(pairs, i + 1, code);
        lemma_count_of_take_succ(pairs, i, code);
    }
}

/// What a [`Metrics`] abstracts to.
#[verifier::ext_equal]
pub struct MetricsView {
    /// Samples of the full request latency, in nanoseconds.
    pub total_latency: Seq<u64>,
    /// Reserved for connection-setup timings; never fed by this library.
    pub tcp_connect_time: Seq<u64>,
    /// Reserved for handshake timings; never fed by this library.
    pub tls_handshake_time: Seq<u64>,
    /// Samples of the HTTP request time, in nanoseconds.
    pub http_request_time: Seq<u64>,
    /// The windowed request counter.
    pub rps: RpsView,
    /// How many transport errors were recorded.
    pub total_errors: int,
    /// Reserved for error-rate samples; never fed by this library.
    pub error_rates_per_sec: Seq<u64>,
    /// Requests per HTTP status code; absent codes map to zero.
    pub status_codes: Map<u16, int>,
    /// The description of every recorded transport error, in order.
    pub other_errors: Seq<String>,
}

/// The view of a freshly constructed metrics instance.
pub open spec fn empty_metrics(rps_window_ns: u64) -> MetricsView {
    MetricsView {
        total_latency: Seq::empty(),
        tcp_connect_time: Seq::empty(),
        tls_handshake_time: Seq::empty(),
        http_request_time: Seq::empty(),
        rps: fresh_rps(rps_window_ns),
        total_errors: 0,
        error_rates_per_sec: Seq::empty(),
        status_codes: Map::total(|code: u16| 0),
        other_errors: Seq::empty(),
    }
}

/// The view after folding `s` into `d`: latency samples concatenate, error
/// totals add, histograms add per code, error descriptions concatenate, and
/// the destination's RPS windows stay as they are.
pub open spec fn spec_merge(d: MetricsView, s: MetricsView) -> MetricsView {
    MetricsView {
        total_latency: d.total_latency + s.total_latency,
        tcp_connect_time: d.tcp_connect_time + s.tcp_connect_time,
        tls_handshake_time: d.tls_handshake_time + s.tls_handshake_time,
        http_request_time: d.http_request_time + s.http_request_time,
        rps: d.rps,
        total_errors: d.total_errors + s.total_errors,
        error_rates_per_sec: d.error_rates_per_sec + s.error_rates_per_sec,
        status_codes: Map::total(|code: u16| d.status_codes[code] + s.status_codes[code]),
        other_errors: d.other_errors + s.other_errors,
    }
}

/// A metrics instance that has recorded nothing. The state of its RPS counter
/// does not matter: merging never reads it.
pub open spec fn is_empty_metrics(v: MetricsView) -> bool {
    &&& v.total_latency.len() == 0
    &&& v.tcp_connect_time.len() == 0
    &&& v.tls_handshake_time.len() == 0
    &&& v.http_request_time.len() == 0
    &&& v.total_errors == 0
    &&& v.error_rates_per_sec.len() == 0
    &&& forall|code: u16| v.status_codes[code] == 0
    &&& v.other_errors.len() == 0
}

/// Law: merging a metrics instance that has recorded nothing into a
/// destination whose histogram covers every code leaves the destination
/// unchanged.
pub proof fn lemma_merge_empty_is_identity(d: MetricsView, s: MetricsView)
    requires
        is_empty_metrics(s),
        d.status_codes.dom() == Set::<u16>::full(),
    ensures
        spec_merge(d, s) == d,
{
    assert(d.total_latency + s.total_latency =~= d.total_latency);
    assert(d.tcp_connect_time + s.tcp_connect_time =~= d.tcp_connect_time);
    assert(d.tls_handshake_time + s.tls_handshake_time =~= d.tls_handshake_time);
    assert(d.http_request_time + s.http_request_time =~= d.http_request_time);
    assert(d.error_rates_per_sec + s.error_rates_per_sec =~= d.error_rates_per_sec);
    assert(d.other_errors + s.other_errors =~= d.other_errors);
    assert(Map::total(|code: u16| d.status_codes[code] + s.status_codes[code])
        =~= d.status_codes);
    assert(spec_merge(d, s) =~= d);
}

/// Repeated merging, one source after the other.
pub open spec fn spec_merge_all(d: MetricsView, srcs: Seq<MetricsView>) -> MetricsView
    decreases srcs.len(),
{
    if srcs.len() == 0 {
        d
    } else {
        spec_merge(spec_merge_all(d, srcs.drop_last()), srcs.last())
    }
}

/// How many HTTP request samples a collection of sources holds in all.
pub open spec fn total_http_samples(srcs: Seq<MetricsView>) -> int
    decreases srcs.len(),
{
    if srcs.len() == 0 {
        0
    } else {
        total_http_samples(srcs.drop_last()) + srcs.last().http_request_time.len()
    }
}

/// Law: after merging any collection of sources into a destination, the HTTP
/// request count of the destination is its own count plus the counts of every
/// merged source.
pub proof fn lemma_merge_all_collects_http_samples(d: MetricsView, srcs: Seq<MetricsView>)
    ensures
        spec_merge_all(d, srcs).http_request_time.len() == d.http_request_time.len()
            + total_http_samples(srcs),
    decreases srcs.len(),
{
    if srcs.len() > 0 {
        lemma_merge_all_collects_http_samples(d, srcs.drop_last());
    }
}

/// The metrics one virtual user gathers: latency summaries, a windowed RPS
/// counter, a status-code histogram and transport-error descriptions.
pub struct Metrics {
    /// Latency of the whole request, including transport setup.
    pub total_latency: Summary,
    /// Reserved for connection-setup timings; stays empty.
    pub tcp_connect_time: Summary,
    /// Reserved for handshake timings; stays empty.
    pub tls_handshake_time: Summary,
    /// Time spent in the HTTP request itself.
    pub http_request_time: Summary,
    /// Requests counted per wall-clock window.
    pub rps_summary: RpsSummary,
    /// How many transport errors have been recorded.
    pub total_errors: usize,
    /// Reserved for error-rate samples; stays empty.
    pub error_rates_per_sec: Summary,
    /// Requests per HTTP status code, one pair per code seen.
    pub status_code_counts: Vec<(u16, usize)>,
    /// The description of every recorded transport error, in order.
    pub other_errors: Vec<String>,
}

impl View for Metrics {
    type V = MetricsView;

    open spec fn view(&self) -> MetricsView {
        MetricsView {
            total_latency: self.total_latency@,
            tcp_connect_time: self.tcp_connect_time@,
            tls_handshake_time: self.tls_handshake_time@,
            http_request_time: self.http_request_time@,
            rps: self.rps_summary@,
            total_errors: self.total_errors as int,
            error_rates_per_sec: self.error_rates_per_sec@,
            status_codes: status_map_of(self.status_code_counts@),
            other_errors: self.other_errors@,
        }
    }
}

impl Metrics {
    /// Invariant: the summaries are well-formed, the error total equals the
    /// number of recorded descriptions, and no status code has two histogram
    /// entries.
    pub open spec fn wf(&self) -> bool {
        &&& self.total_latency.wf()
        &&& self.tcp_connect_time.wf()
        &&& self.tls_handshake_time.wf()
        &&& self.http_request_time.wf()
        &&& self.rps_summary.wf()
        &&& self.error_rates_per_sec.wf()
        &&& self.total_errors == self.other_errors@.len()
        &&& unique_codes(self.status_code_counts@)
    }

    /// Fresh metrics whose RPS counter uses windows of `rps_window_size_ns`
    /// nanoseconds.
    pub fn new(rps_window_size_ns: u64) -> (r: Metrics)
        ensures
            r.wf(),
            r@ == empty_metrics(rps_window_size_ns),
    {
        let m = Metrics {
            total_latency: Summary::new(),
            tcp_connect_time: Summary::new(),
            tls_handshake_time: Summary::new(),
            http_request_time: Summary::new(),
            rps_summary: RpsSummary::new(rps_window_size_ns),
            total_errors: 0,
            error_rates_per_sec: Summary::new(),
            status_code_counts: Vec::new(),
            other_errors: Vec::new(),
        };
        proof {
            assert(m@.status_codes =~= empty_metrics(rps_window_size_ns).status_codes);
            assert(m@ =~= empty_metrics(rps_window_size_ns));
        }
        m
    }

    /// Record one finished request's latency: both latency summaries take the
    /// sample and the RPS counter counts the request at `now_ns`. A failure of
    /// the RPS counter (not started) is dropped, as the request loop does.
    pub fn record_latency(&mut self, latency_ns: u64, now_ns: u64)
        requires
            old(self).wf(),
            old(self)@.total_latency.len() < usize::MAX,
            old(self)@.http_request_time.len() < usize::MAX,
            can_increment(old(self)@.rps, now_ns),
        ensures
            final(self).wf(),
            final(self)@ == (MetricsView {
                total_latency: old(self)@.total_latency.push(latency_ns),
                http_request_time: old(self)@.http_request_time.push(latency_ns),
                rps: rps_after_increment(old(self)@.rps, now_ns),
                ..old(self)@
            }),
    {
        self.total_latency.update(latency_ns);
        self.http_request_time.update(latency_ns);
        let _ = self.rps_summary.increment_request_count(now_ns);
        proof {
            assert(self@ =~= (MetricsView {
                total_latency: old(self)@.total_latency.push(latency_ns),
                http_request_time: old(self)@.http_request_time.push(latency_ns),
                rps: rps_after_increment(old(self)@.rps, now_ns),
                ..old(self)@
            }));
        }
    }

    /// Add `n` requests to the histogram entry of `code`.
    pub fn add_status_count(&mut self, code: u16, n: usize)
        requires
            old(self).wf(),
            old(self)@.status_codes[code] + n <= usize::MAX,
        ensures
            final(self).wf(),
            final(self)@ == (MetricsView {
                status_codes: Map::total(
                    |q: u16| old(self)@.status_codes[q] + if q == code {
                        n as int
                    } else {
                        0
                    },
                ),
                ..old(self)@
            }),
    {
        let ghost pairs = self.status_code_counts@;
        let mut i: usize = 0;
        while i < self.status_code_counts.len()
            invariant
                *self == *old(self),
                self.wf(),
                pairs == self.status_code_counts@,
                count_of(pairs, code) + n <= usize::MAX,
                0 <= i <= pairs.len(),
                forall|j: int| 0 <= j < i ==> pairs[j].0 != code,
            decreases pairs.len() - i,
        {
            let (k, c) = self.status_code_counts[i];
            if k == code {
                proof {
                    lemma_count_of_unique_entry(pairs, i as int);
                    lemma_count_of_nonneg(pairs, code);
                }
                self.status_code_counts[i] = (code, c + n);
                proof {
                    assert forall|q: u16|
                        count_of(self.status_code_counts@, q) == count_of(pairs, q) + if q
                            == code {
                            n as int
                        } else {
                            0
                        } by {
                        lemma_count_of_update(pairs, i as int, (code, (c + n) as usize), q);
                    }
                    assert(final(self)@.status_codes =~= Map::total(
                        |q: u16| old(self)@.status_codes[q] + if q == code {
                            n as int
                        } else {
                            0
                        },
                    ));
                    assert(final(self)@ =~= (MetricsView {
                        status_codes: Map::total(
                            |q: u16| old(self)@.status_codes[q] + if q == code {
                                n as int
                            } else {
                                0
                            },
                        ),
                        ..old(self)@
                    }));
                }
                return ;
            }
            i = i + 1;
        }
        proof {
            lemma_count_of_absent(pairs, code);
        }
        self.status_code_counts.push((code, n));
        proof {
            assert(self.status_code_counts@.drop_last() =~= pairs);
            assert forall|q: u16|
                count_of(self.status_code_counts@, q) == count_of(pairs, q) + if q == code {
                    n as int
                } else {
                    0
                } by {}
            assert(final(self)@.status_codes =~= Map::total(
                |q: u16| old(self)@.status_codes[q] + if q == code {
                    n as int
                } else {
                    0
                },
            ));
            assert(final(self)@ =~= (MetricsView {
                status_codes: Map::total(
                    |q: u16| old(self)@.status_codes[q] + if q == code {
                        n as int
                    } else {
                        0
                    },
                ),
                ..old(self)@
            }));
        }
    }

    /// Record one HTTP response's status code.
    pub fn record_status(&mut self, code: u16)
        requires
            old(self).wf(),
            old(self)@.status_codes[code] < usize::MAX,
        ensures
            final(self).wf(),
            final(self)@ == (MetricsView {
                status_codes: Map::total(
                    |q: u16| old(self)@.status_codes[q] + if q == code {
                        1int
                    } else {
                        0
                    },
                ),
                ..old(self)@
            }),
    {
        self.add_status_count(code, 1);
    }

    /// Record one transport error: the total grows by one and the description
    /// is appended.
    pub fn record_transport_error(&mut self, description: String)
        requires
            old(self).wf(),
        ensures
            final(self).wf(),
            final(self)@ == (MetricsView {
                total_errors: old(self)@.total_errors + 1,
                other_errors: old(self)@.other_errors.push(description),
                ..old(self)@
            }),
    {
        self.other_errors.push(description);
        self.total_errors = self.other_errors.len();
        proof {
            assert(final(self)@ =~= (MetricsView {
                total_errors: old(self)@.total_errors + 1,
                other_errors: old(self)@.other_errors.push(description),
                ..old(self)@
            }));
        }
    }

    /// How many requests returned `code`.
    pub fn status_count(&self, code: u16) -> (r: usize)
        requires
            self.wf(),
        ensures
            r == self@.status_codes[code],
    {
        let ghost pairs = self.status_code_counts@;
        let mut i: usize = 0;
        while i < self.status_code_counts.len()
            invariant
                pairs == self.status_code_counts@,
                self.wf(),
                0 <= i <= pairs.len(),
                forall|j: int| 0 <= j < i ==> pairs[j].0 != code,
            decreases pairs.len() - i,
        {
            let (k, c) = self.status_code_counts[i];
            if k == code {
                proof {
                    lemma_count_of_unique_entry(pairs, i as int);
                }
                return c;
            }
            i = i + 1;
        }
        proof {
            lemma_count_of_absent(pairs, code);
        }
        0
    }

    /// Fold another metrics instance into this one: latency summaries merge,
    /// error totals add, histograms add per code, error descriptions append.
    /// This instance's RPS windows stay as they are.
    pub fn merge_from(&mut self, src: &Metrics)
        requires
            old(self).wf(),
            src.wf(),
            old(self)@.total_latency.len() + src@.total_latency.len() <= usize::MAX,
            old(self)@.tcp_connect_time.len() + src@.tcp_connect_time.len() <= usize::MAX,
            old(self)@.tls_handshake_time.len() + src@.tls_handshake_time.len() <= usize::MAX,
            old(self)@.http_request_time.len() + src@.http_request_time.len() <= usize::MAX,
            old(self)@.error_rates_per_sec.len() + src@.error_rates_per_sec.len() <= usize::MAX,
            forall|code: u16|
                old(self)@.status_codes[code] + src@.status_codes[code] <= usize::MAX,
        ensures
            final(self).wf(),
            final(self)@ == spec_merge(old(self)@, src@),
    {
        self.total_latency.merge_from(&src.total_latency);
        self.tcp_connect_time.merge_from(&src.tcp_connect_time);
        self.tls_handshake_time.merge_from(&src.tls_handshake_time);
        self.http_request_time.merge_from(&src.http_request_time);
        self.error_rates_per_sec.merge_from(&src.error_rates_per_sec);

        let ghost mid = self@;
        let mut i: usize = 0;
        while i < src.status_code_counts.len()
            invariant
                self.wf(),
                src.wf(),
                0 <= i <= src.status_code_counts@.len(),
                forall|q: u16|
                    self@.status_codes[q] == mid.status_codes[q] + count_of(
                        src.status_code_counts@.take(i as int),
                        q,
                    ),
                forall|q: u16| mid.status_codes[q] + src@.status_codes[q] <= usize::MAX,
                self@ == (MetricsView { status_codes: self@.status_codes, ..mid }),
            decreases src.status_code_counts@.len() - i,
        {
            let (k, c) = src.status_code_counts[i];
            proof {
                lemma_count_of_take_le(src.status_code_counts@, i + 1, k);
                lemma_count_of_take_succ(src.status_code_counts@, i as int, k);
                lemma_count_of_nonneg(src.status_code_counts@.take(i as int), k);
            }
            self.add_status_count(k, c);
            proof {
                assert forall|q: u16|
                    self@.status_codes[q] == mid.status_codes[q] + count_of(
                        src.status_code_counts@.take(i + 1),
                        q,
                    ) by {
                    lemma_count_of_take_succ(src.status_code_counts@, i as int, q);
                }
            }
            i = i + 1;
        }
        proof {
            assert(src.status_code_counts@.take(src.status_code_counts@.len() as int)
                =~= src.status_code_counts@);
        }

        let ghost mid2 = self@;
        let mut j: usize = 0;
        while j < src.other_errors.len()
            invariant
                0 <= j <= src.other_errors@.len(),
                self.other_errors@ == mid2.other_errors + src.other_errors@.take(j as int),
                self@ == (MetricsView {
                    other_errors: self.other_errors@,
                    total_errors: self@.total_errors,
                    ..mid2
                }),
                self.total_errors == mid2.total_errors,
                self.total_latency.wf(),
                self.tcp_connect_time.wf(),
                self.tls_handshake_time.wf(),
                self.http_request_time.wf(),
                self.rps_summary.wf(),
                self.error_rates_per_sec.wf(),
                unique_codes(self.status_code_counts@),
            decreases src.other_errors@.len() - j,
        {
            let s = src.other_errors[j].clone();
            self.other_errors.push(s);
            proof {
                assert(self.other_errors@ =~= mid2.other_errors + src.other_errors@.take(
                    j + 1,
                ));
            }
            j = j + 1;
        }
        proof {
            assert(src.other_errors@.take(src.other_errors@.len() as int) =~= src.other_errors@);
        }
        self.total_errors = self.other_errors.len();
        proof {
            assert(final(self)@.status_codes =~= spec_merge(old(self)@, src@).status_codes);
            assert(final(self)@ =~= spec_merge(old(self)@, src@));
        }
    }
}

impl Default for Metrics {
    /// Metrics with a zero RPS window: only valid as a merge destination, not
    /// as an operating user's metrics.
    fn default() -> (r: Metrics)
        ensures
            r.wf(),
            r@ == empty_metrics(0),
    {
        Metrics::new(0)
    }
}

} // verus!

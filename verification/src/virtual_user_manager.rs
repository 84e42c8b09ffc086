//! The load-shape orchestrator: ramp plans, the per-tick spawn/stop decision,
//! and the pool bookkeeping of live virtual users.
//!
//! A plan is an ordered list of segments `(duration, target)`. Within a
//! segment the ideal user count is the linear interpolation from the count at
//! segment entry to the target over the segment's duration; on each tick
//! [`tick_action`] compares the ideal with the live count and decides how many
//! users to spawn or stop, with a dead band of one user in each direction to
//! suppress jitter. At segment end [`fixup_action`] forces exact convergence.
//!
//! The loop that sleeps between ticks, starts the request tasks and awaits
//! their shutdown runs outside this crate; it feeds these decision functions
//! elapsed times and counts, and hands each stopped user's metrics to
//! [`VirtualUserManager::stop_merge_last`].

use vstd::arithmetic::div_mod::lemma_div_is_ordered;
use vstd::arithmetic::div_mod::lemma_div_multiples_vanish;
use vstd::pervasive::unreached;
use vstd::prelude::*;

use crate::metrics::empty_metrics;
use crate::metrics::spec_merge;
use crate::metrics::Metrics;
use crate::metrics::MetricsView;
use crate::rps_summary::NANOS_PER_SEC;
use crate::virtual_user::VirtualUser;
use crate::virtual_user::VirtualUserView;

verus! {

/// Configuration every spawned virtual user is built from.
#[derive(Debug, Clone)]
pub struct VirtualUserConfig {
    /// The URL each user requests in its loop.
    pub url: String,
    /// RPS window size for each user's metrics, in nanoseconds.
    pub rps_window_size_ns: u64,
    /// Graceful-shutdown budget of each user, in nanoseconds.
    pub graceful_shutdown_ns: u64,
}

impl VirtualUserConfig {
    /// A configuration for `url` with a one-second RPS window and no
    /// graceful-shutdown budget.
    pub fn new(url: &str) -> (r: VirtualUserConfig)
        ensures
            r.url@ == url@,
            r.rps_window_size_ns == NANOS_PER_SEC,
            r.graceful_shutdown_ns == 0,
    {
        VirtualUserConfig {
            url: url.to_owned(),
            rps_window_size_ns: NANOS_PER_SEC,
            graceful_shutdown_ns: 0,
        }
    }

    /// The same configuration with the RPS window size replaced.
    pub fn rps_window_size(self, rps_window_size_ns: u64) -> (r: VirtualUserConfig)
        ensures
            r.url == self.url,
            r.rps_window_size_ns == rps_window_size_ns,
            r.graceful_shutdown_ns == self.graceful_shutdown_ns,
    {
        VirtualUserConfig { rps_window_size_ns, ..self }
    }

    /// The same configuration with the graceful-shutdown budget replaced.
    pub fn graceful_shutdown(self, graceful_shutdown_ns: u64) -> (r: VirtualUserConfig)
        ensures
            r.url == self.url,
            r.rps_window_size_ns == self.rps_window_size_ns,
            r.graceful_shutdown_ns == graceful_shutdown_ns,
    {
        VirtualUserConfig { graceful_shutdown_ns, ..self }
    }
}

/// One ramp segment: reach `target` live users `duration_ns` nanoseconds after
/// segment entry, interpolating linearly from whatever count is live at entry.
#[derive(Debug, Clone, Copy, PartialEq, Eq, Structural)]
pub struct PlanSegment {
    /// Length of the segment in nanoseconds.
    pub duration_ns: u64,
    /// Desired number of live users at the end of the segment.
    pub target: usize,
}

impl PlanSegment {
    pub fn new(duration_ns: u64, target: usize) -> (r: PlanSegment)
        ensures
            r.duration_ns == duration_ns,
            r.target == target,
    {
        PlanSegment { duration_ns, target }
    }
}

/// What one tick of the ramp loop decides.
#[derive(Debug, Clone, Copy, PartialEq, Eq, Structural)]
pub enum TickAction {
    /// Spawn this many new users.
    Spawn(usize),
    /// Stop this many users, most recently spawned first.
    Stop(usize),
    /// The live count is within one user of the ideal: do nothing.
    Hold,
}

/// The ideal user count at `elapsed_ns` into a segment, scaled by the
/// segment's duration to stay in integers: `duration * (start + (target -
/// start) * elapsed / duration)`, regrouped so that both products are
/// non-negative.
pub open spec fn ideal_scaled(
    segment_start_count: usize,
    target: usize,
    elapsed_ns: u64,
    duration_ns: u64,
) -> int
    recommends
        elapsed_ns <= duration_ns,
{
    segment_start_count * (duration_ns - elapsed_ns) + target * elapsed_ns
}

/// The decision of one ramp tick, in exact rational arithmetic over the
/// scaled ideal. With `diff` the ideal minus the live count: spawn
/// `floor(diff)` users when `diff >= 1`, stop `floor(-diff)` users when
/// `diff <= -1`, and hold inside the dead band `(-1, 1)`.
pub open spec fn spec_tick_action(
    segment_start_count: usize,
    target: usize,
    current: usize,
    elapsed_ns: u64,
    duration_ns: u64,
) -> TickAction
    recommends
        duration_ns > 0,
        elapsed_ns <= duration_ns,
{
    let ideal = ideal_scaled(segment_start_count, target, elapsed_ns, duration_ns);
    let cur = current * duration_ns;
    if ideal >= cur + duration_ns {
        TickAction::Spawn(((ideal - cur) / (duration_ns as int)) as usize)
    } else if ideal + duration_ns <= cur {
        TickAction::Stop(((cur - ideal) / (duration_ns as int)) as usize)
    } else {
        TickAction::Hold
    }
}

/// The scaled ideal lies between zero and `max(start, target) * duration`.
proof fn lemma_ideal_bounds(s: int, tgt: int, e: int, t: int)
    requires
        0 <= s,
        0 <= tgt,
        0 <= e <= t,
    ensures
        0 <= s * (t - e) + tgt * e <= (if s > tgt {
            s
        } else {
            tgt
        }) * t,
{
    let m = if s > tgt {
        s
    } else {
        tgt
    };
    assert(0 <= s * (t - e) + tgt * e <= m * (t - e) + m * e) by (nonlinear_arith)
        requires
            0 <= s <= m,
            0 <= tgt <= m,
            0 <= e <= t,
    ;
    assert(m * (t - e) + m * e == m * t) by (nonlinear_arith);
}

/// Decide one ramp tick: compare the ideal user count at `elapsed_ns` into
/// the segment with the live count and return how many users to spawn or
/// stop, holding inside the dead band of one user.
pub fn tick_action(
    segment_start_count: usize,
    target: usize,
    current: usize,
    elapsed_ns: u64,
    duration_ns: u64,
) -> (r: TickAction)
    requires
        duration_ns > 0,
        elapsed_ns <= duration_ns,
    ensures
        r == spec_tick_action(segment_start_count, target, current, elapsed_ns, duration_ns),
        r matches TickAction::Spawn(n) ==> 1 <= n,
        r matches TickAction::Stop(n) ==> 1 <= n <= current,
{
    let ghost maxc: int = if segment_start_count > target {
        segment_start_count as int
    } else {
        target as int
    };
    proof {
        lemma_ideal_bounds(
            segment_start_count as int,
            target as int,
            elapsed_ns as int,
            duration_ns as int,
        );
        assert(maxc * duration_ns <= u64::MAX * (u64::MAX as int)) by (nonlinear_arith)
            requires
                0 <= maxc <= u64::MAX,
                0 <= duration_ns <= u64::MAX,
        ;
        assert((current as int) * duration_ns <= u64::MAX * (u64::MAX as int)) by (nonlinear_arith)
            requires
                0 <= current <= u64::MAX,
                0 <= duration_ns <= u64::MAX,
        ;
    }
    let t: u128 = duration_ns as u128;
    let e: u128 = elapsed_ns as u128;
    let a: u128 = (segment_start_count as u128) * (t - e);
    let b: u128 = (target as u128) * e;
    proof {
        assert((segment_start_count as int) * ((t - e) as int) <= u64::MAX * (u64::MAX as int))
            by (nonlinear_arith)
            requires
                0 <= segment_start_count <= u64::MAX,
                0 <= (t - e) as int <= u64::MAX,
        ;
        assert((target as int) * (e as int) <= u64::MAX * (u64::MAX as int)) by (nonlinear_arith)
            requires
                0 <= target <= u64::MAX,
                0 <= e as int <= u64::MAX,
        ;
    }
    let ideal: u128 = a + b;
    let cur: u128 = (current as u128) * t;
    if ideal >= cur && ideal - cur >= t {
        let n: u128 = (ideal - cur) / t;
        proof {
            lemma_div_is_ordered(t as int, (ideal - cur) as int, t as int);
            lemma_div_is_ordered((ideal - cur) as int, maxc * (t as int), t as int);
            lemma_div_multiples_vanish(1, t as int);
            lemma_div_multiples_vanish(maxc, t as int);
            assert(maxc * (t as int) == (t as int) * maxc) by (nonlinear_arith);
        }
        TickAction::Spawn(n as usize)
    } else if ideal + t <= cur {
        let n: u128 = (cur - ideal) / t;
        proof {
            lemma_div_is_ordered(t as int, (cur - ideal) as int, t as int);
            lemma_div_is_ordered((cur - ideal) as int, (current as int) * (t as int), t as int);
            lemma_div_multiples_vanish(1, t as int);
            lemma_div_multiples_vanish(current as int, t as int);
            assert((current as int) * (t as int) == (t as int) * (current as int))
                by (nonlinear_arith);
        }
        TickAction::Stop(n as usize)
    } else {
        TickAction::Hold
    }
}

/// Decide the post-segment fixup: exactly how many users to spawn or stop so
/// that the live count meets the segment's target.
pub fn fixup_action(current: usize, target: usize) -> (r: TickAction)
    ensures
        current < target ==> r == TickAction::Spawn((target - current) as usize),
        current > target ==> r == TickAction::Stop((current - target) as usize),
        current == target ==> r == TickAction::Hold,
        match r {
            TickAction::Spawn(n) => current + n == target,
            TickAction::Stop(n) => n <= current && current - n == target,
            TickAction::Hold => current == target,
        },
{
    if current < target {
        TickAction::Spawn(target - current)
    } else if current > target {
        TickAction::Stop(current - target)
    } else {
        TickAction::Hold
    }
}

/// Whether a segment's ramp loop has another tick to run.
pub open spec fn spec_tick_pending(elapsed_ns: u64, duration_ns: u64) -> bool {
    elapsed_ns < duration_ns
}

/// Whether a segment's ramp loop has another tick to run at `elapsed_ns` into
/// the segment.
pub fn ramp_tick_pending(elapsed_ns: u64, duration_ns: u64) -> (r: bool)
    ensures
        r == spec_tick_pending(elapsed_ns, duration_ns),
{
    elapsed_ns < duration_ns
}

/// Law: a segment whose target equals the count at segment entry never spawns
/// and never stops — every tick of it holds, at every elapsed time.
pub proof fn lemma_flat_segment_holds(count: usize, elapsed_ns: u64, duration_ns: u64)
    requires
        duration_ns > 0,
        elapsed_ns <= duration_ns,
    ensures
        spec_tick_action(count, count, count, elapsed_ns, duration_ns) == TickAction::Hold,
{
    assert(count * ((duration_ns - elapsed_ns) as int) + count * elapsed_ns == count
        * duration_ns) by (nonlinear_arith);
}

/// Law: a segment of zero duration runs no ramp tick at all; its convergence
/// happens entirely in the post-segment fixup.
pub proof fn lemma_zero_duration_never_ticks(elapsed_ns: u64)
    ensures
        !spec_tick_pending(elapsed_ns, 0),
{
}

/// The orchestrator's verified state: the configuration, the ordered ramp
/// plan, the live-user bookkeeping and the overall metrics merged from
/// stopped users.
///
/// Spawned users are handed to the caller, whose driver tasks own them while
/// they run; the manager keeps their number and, as a ghost record, the
/// spawn-time view of each, in spawn order ([`Self::vus_view`]).
pub struct VirtualUserManager {
    config: VirtualUserConfig,
    plans: Vec<PlanSegment>,
    running_count: usize,
    running_vus: Ghost<Seq<VirtualUserView>>,
    overall_metrics: Metrics,
}

impl VirtualUserManager {
    pub closed spec fn wf(&self) -> bool {
        &&& self.overall_metrics.wf()
        &&& self.running_count == self.running_vus@.len()
    }

    pub closed spec fn plans_view(&self) -> Seq<PlanSegment> {
        self.plans@
    }

    /// The spawn-time view of every live user, most recently spawned last.
    pub closed spec fn vus_view(&self) -> Seq<VirtualUserView> {
        self.running_vus@
    }

    pub closed spec fn running_len(&self) -> int {
        self.running_vus@.len() as int
    }

    pub closed spec fn overall_view(&self) -> MetricsView {
        self.overall_metrics@
    }

    pub closed spec fn config_view(&self) -> VirtualUserConfig {
        self.config
    }

    /// A manager with no plan and no live users; the overall metrics start
    /// empty, with the configured RPS window.
    pub fn new(config: VirtualUserConfig) -> (r: VirtualUserManager)
        ensures
            r.wf(),
            r.plans_view() == Seq::<PlanSegment>::empty(),
            r.running_len() == 0,
            r.vus_view() == Seq::<VirtualUserView>::empty(),
            r.overall_view() == empty_metrics(config.rps_window_size_ns),
            r.config_view() == config,
    {
        let overall_metrics = Metrics::new(config.rps_window_size_ns);
        VirtualUserManager {
            config,
            plans: Vec::new(),
            running_count: 0,
            running_vus: Ghost(Seq::empty()),
            overall_metrics,
        }
    }

    /// Append one ramp segment to the plan.
    pub fn add_plan(&mut self, duration_ns: u64, target: usize)
        requires
            old(self).wf(),
        ensures
            final(self).wf(),
            final(self).plans_view() == old(self).plans_view().push(
                PlanSegment { duration_ns, target },
            ),
            final(self).running_len() == old(self).running_len(),
            final(self).vus_view() == old(self).vus_view(),
            final(self).overall_view() == old(self).overall_view(),
            final(self).config_view() == old(self).config_view(),
    {
        self.plans.push(PlanSegment::new(duration_ns, target));
    }

    /// How many segments the plan holds.
    pub fn plan_count(&self) -> (r: usize)
        ensures
            r == self.plans_view().len(),
    {
        self.plans.len()
    }

    /// The `i`-th segment of the plan.
    pub fn plan_at(&self, i: usize) -> (r: PlanSegment)
        requires
            i < self.plans_view().len(),
        ensures
            r == self.plans_view()[i as int],
    {
        self.plans[i]
    }

    /// How many users are live.
    pub fn running_count(&self) -> (r: usize)
        requires
            self.wf(),
        ensures
            r == self.running_len(),
    {
        self.running_count
    }

    /// The configuration users are spawned from.
    pub fn config(&self) -> (r: &VirtualUserConfig)
        ensures
            *r == self.config_view(),
    {
        &self.config
    }

    /// Spawn one user: count it as live and hand it back, freshly built from
    /// the configuration — its URL, its graceful-shutdown budget, and empty
    /// metrics over the configured RPS window. The caller starts its request
    /// loop.
    pub fn spawn_vu(&mut self) -> (r: VirtualUser)
        requires
            old(self).wf(),
            old(self).config_view().rps_window_size_ns > 0,
            old(self).running_len() < usize::MAX,
        ensures
            final(self).wf(),
            r.wf(),
            r@ == (VirtualUserView {
                url: old(self).config_view().url@,
                graceful_shutdown_ns: old(self).config_view().graceful_shutdown_ns,
                metrics: empty_metrics(old(self).config_view().rps_window_size_ns),
            }),
            final(self).vus_view() == old(self).vus_view().push(r@),
            final(self).running_len() == old(self).running_len() + 1,
            final(self).plans_view() == old(self).plans_view(),
            final(self).overall_view() == old(self).overall_view(),
            final(self).config_view() == old(self).config_view(),
    {
        let vu = match VirtualUser::new(self.config.url.as_str(), self.config.rps_window_size_ns) {
            Ok(vu) => vu,
            Err(_) => {
                proof {
                    assert(false);
                }
                unreached()
            },
        };
        let vu = vu.set_graceful_shutdown(self.config.graceful_shutdown_ns);
        self.running_count = self.running_count + 1;
        proof {
            self.running_vus@ = self.running_vus@.push(vu@);
            assert(vu@ =~= (VirtualUserView {
                url: old(self).config_view().url@,
                graceful_shutdown_ns: old(self).config_view().graceful_shutdown_ns,
                metrics: empty_metrics(old(self).config_view().rps_window_size_ns),
            }));
        }
        vu
    }

    /// Drop the most recently spawned user from the live bookkeeping and fold
    /// the metrics its stopped request loop handed back into the overall
    /// metrics. Returns whether a user was live; with no live user nothing
    /// changes.
    pub fn stop_merge_last(&mut self, stopped_metrics: &Metrics) -> (r: bool)
        requires
            old(self).wf(),
            stopped_metrics.wf(),
            old(self).overall_view().total_latency.len() + stopped_metrics@.total_latency.len()
                <= usize::MAX,
            old(self).overall_view().tcp_connect_time.len()
                + stopped_metrics@.tcp_connect_time.len() <= usize::MAX,
            old(self).overall_view().tls_handshake_time.len()
                + stopped_metrics@.tls_handshake_time.len() <= usize::MAX,
            old(self).overall_view().http_request_time.len()
                + stopped_metrics@.http_request_time.len() <= usize::MAX,
            old(self).overall_view().error_rates_per_sec.len()
                + stopped_metrics@.error_rates_per_sec.len() <= usize::MAX,
            forall|code: u16|
                old(self).overall_view().status_codes[code] + stopped_metrics@.status_codes[code]
                    <= usize::MAX,
        ensures
            final(self).wf(),
            r == (old(self).running_len() > 0),
            final(self).plans_view() == old(self).plans_view(),
            final(self).config_view() == old(self).config_view(),
            old(self).running_len() == 0 ==> final(self).running_len() == 0
                && final(self).vus_view() == old(self).vus_view()
                && final(self).overall_view() == old(self).overall_view(),
            old(self).running_len() > 0 ==> final(self).running_len() == old(self).running_len()
                - 1 && final(self).vus_view() == old(self).vus_view().drop_last()
                && final(self).overall_view() == spec_merge(
                old(self).overall_view(),
                stopped_metrics@,
            ),
    {
        if self.running_count == 0 {
            return false;
        }
        self.running_count = self.running_count - 1;
        proof {
            self.running_vus@ = self.running_vus@.drop_last();
        }
        self.overall_metrics.merge_from(stopped_metrics);
        true
    }

    /// The metrics merged from every stopped user so far. Users still live are
    /// not included; call this after the run has drained them.
    pub fn get_overall_metrics(&self) -> (r: &Metrics)
        requires
            self.wf(),
        ensures
            r.wf(),
            r@ == self.overall_view(),
    {
        &self.overall_metrics
    }
}

} // verus!

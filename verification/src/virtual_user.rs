//! One virtual user: the validated identity of a request-loop actor.
//!
//! A virtual user owns the target URL, its graceful-shutdown budget and a
//! fresh [`Metrics`] instance. The request loop itself issues HTTP requests
//! and awaits them on a task runtime, so it runs outside this crate; it
//! records what happened through the `Metrics` operations, which carry the
//! contracts. Construction rejects a zero RPS window, the one fatal
//! configuration error.

use vstd::prelude::*;

use crate::metrics::empty_metrics;
use crate::metrics::Metrics;
use crate::metrics::MetricsView;

verus! {

/// Why a virtual user could not be constructed.
#[derive(Debug, Clone, Copy, PartialEq, Eq, Structural)]
pub enum VirtualUserError {
    /// The RPS window size was zero; the windowed counter needs a positive
    /// window.
    ZeroWindowSize,
}

/// What a [`VirtualUser`] abstracts to.
#[verifier::ext_equal]
pub struct VirtualUserView {
    /// The URL the user requests in its loop.
    pub url: Seq<char>,
    /// How long a stop lets an in-flight request finish before aborting, in
    /// nanoseconds; zero means abort at once.
    pub graceful_shutdown_ns: u64,
    /// The metrics this user has gathered.
    pub metrics: MetricsView,
}

/// A virtual user: a target URL, a shutdown budget and the metrics of its
/// request loop.
pub struct VirtualUser {
    url: String,
    metrics: Metrics,
    graceful_shutdown_ns: u64,
}

impl View for VirtualUser {
    type V = VirtualUserView;

    closed spec fn view(&self) -> VirtualUserView {
        VirtualUserView {
            url: self.url@,
            graceful_shutdown_ns: self.graceful_shutdown_ns,
            metrics: self.metrics@,
        }
    }
}

impl VirtualUser {
    pub closed spec fn wf(&self) -> bool {
        self.metrics.wf()
    }

    /// A fresh user for `url` whose RPS counter uses windows of
    /// `rps_window_size_ns` nanoseconds. A zero window is rejected; the
    /// graceful-shutdown budget starts at zero.
    pub fn new(url: &str, rps_window_size_ns: u64) -> (r: Result<VirtualUser, VirtualUserError>)
        ensures
            r is Err <==> rps_window_size_ns == 0,
            r is Err ==> r == Err::<VirtualUser, VirtualUserError>(
                VirtualUserError::ZeroWindowSize,
            ),
            r is Ok ==> {
                let vu = r->Ok_0;
                &&& vu.wf()
                &&& vu@.url == url@
                &&& vu@.graceful_shutdown_ns == 0
                &&& vu@.metrics == empty_metrics(rps_window_size_ns)
            },
    {
        if rps_window_size_ns == 0 {
            return Err(VirtualUserError::ZeroWindowSize);
        }
        Ok(
            VirtualUser {
                url: url.to_owned(),
                metrics: Metrics::new(rps_window_size_ns),
                graceful_shutdown_ns: 0,
            },
        )
    }

    /// The same user with its graceful-shutdown budget replaced.
    pub fn set_graceful_shutdown(self, graceful_shutdown_ns: u64) -> (r: VirtualUser)
        requires
            self.wf(),
        ensures
            r.wf(),
            r@ == (VirtualUserView { graceful_shutdown_ns, ..self@ }),
    {
        VirtualUser { graceful_shutdown_ns, ..self }
    }

    /// The URL this user requests.
    pub fn url(&self) -> (r: &str)
        ensures
            r@ == self@.url,
    {
        self.url.as_str()
    }

    /// The graceful-shutdown budget in nanoseconds.
    pub fn graceful_shutdown_ns(&self) -> (r: u64)
        ensures
            r == self@.graceful_shutdown_ns,
    {
        self.graceful_shutdown_ns
    }

    /// A view of this user's metrics.
    pub fn metrics(&self) -> (r: &Metrics)
        requires
            self.wf(),
        ensures
            r.wf(),
            r@ == self@.metrics,
    {
        &self.metrics
    }

    /// Give up the user and keep only its metrics; the request loop takes them
    /// over from here.
    pub fn into_metrics(self) -> (r: Metrics)
        requires
            self.wf(),
        ensures
            r.wf(),
            r@ == self@.metrics,
    {
        self.metrics
    }
}

} // verus!

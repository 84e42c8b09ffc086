//! A library for driving synthetic HTTP load: virtual users issue requests in
//! a closed loop while a manager ramps their number linearly between staged
//! targets and folds the metrics of stopped users into an overall summary.
//!
//! The crate holds the verified core: streaming sample statistics, windowed
//! request-per-second accounting, metric aggregation and merging, and the ramp
//! arithmetic that decides how many users to spawn or stop on each tick.
//! Wall-clock readings enter as explicit nanosecond arguments and latencies are
//! carried as integer nanoseconds, so every computation here is deterministic
//! and fully specified. The network client, the task runtime and the clock
//! live outside this crate and feed it plain values.

pub mod metrics;
pub mod rps_summary;
pub mod summary;
pub mod virtual_user;
pub mod virtual_user_manager;

pub use metrics::Metrics;
pub use rps_summary::RpsSummary;
pub use rps_summary::RpsSummaryError;
pub use summary::Ratio;
pub use summary::Summary;
pub use virtual_user::VirtualUser;
pub use virtual_user::VirtualUserError;
pub use virtual_user_manager::PlanSegment;
pub use virtual_user_manager::TickAction;
pub use virtual_user_manager::VirtualUserConfig;
pub use virtual_user_manager::VirtualUserManager;

use rperf::virtual_user_manager::fixup_action;
use rperf::virtual_user_manager::ramp_tick_pending;
use rperf::virtual_user_manager::tick_action;
use rperf::Metrics;
use rperf::PlanSegment;
use rperf::TickAction;
use rperf::VirtualUserConfig;
use rperf::VirtualUserManager;

const SECOND: u64 = 1_000_000_000;

#[test]
fn test_spawned_user_carries_the_configuration() {
    let config = VirtualUserConfig::new("http://test.com")
        .rps_window_size(10_000_000)
        .graceful_shutdown(50_000_000);
    let mut mgr = VirtualUserManager::new(config);
    let vu = mgr.spawn_vu();
    assert_eq!(vu.url(), "http://test.com");
    assert_eq!(vu.graceful_shutdown_ns(), 50_000_000);
    let mut m = vu.into_metrics();
    assert_eq!(m.rps_summary.window_size_ns(), 10_000_000);
    assert_eq!(m.http_request_time.count(), 0);
    // The window size is live: an increment in the second 10 ms window.
    m.rps_summary.start(0);
    assert!(m.rps_summary.increment_request_count(15_000_000).is_ok());
    assert_eq!(m.rps_summary.num_windows(), 2);
}

#[test]
fn test_config_defaults_and_builders() {
    let config = VirtualUserConfig::new("http://test.com");
    assert_eq!(config.url, "http://test.com");
    assert_eq!(config.rps_window_size_ns, SECOND);
    assert_eq!(config.graceful_shutdown_ns, 0);

    let config = config.rps_window_size(10_000_000).graceful_shutdown(50_000_000);
    assert_eq!(config.url, "http://test.com");
    assert_eq!(config.rps_window_size_ns, 10_000_000);
    assert_eq!(config.graceful_shutdown_ns, 50_000_000);
}

#[test]
fn test_plan_segments_are_kept_in_order() {
    let seg = PlanSegment::new(10 * SECOND, 120);
    assert_eq!(seg.duration_ns, 10 * SECOND);
    assert_eq!(seg.target, 120);

    let mut mgr = VirtualUserManager::new(VirtualUserConfig::new("http://test.com"));
    assert_eq!(mgr.plan_count(), 0);
    mgr.add_plan(10 * SECOND, 120);
    mgr.add_plan(5 * SECOND, 0);
    assert_eq!(mgr.plan_count(), 2);
    assert_eq!(mgr.plan_at(0), PlanSegment::new(10 * SECOND, 120));
    assert_eq!(mgr.plan_at(1), PlanSegment::new(5 * SECOND, 0));
}

#[test]
fn test_spawn_and_stop_merge() {
    let mut mgr = VirtualUserManager::new(VirtualUserConfig::new("http://test.com"));
    let vu = mgr.spawn_vu();
    mgr.spawn_vu();
    assert_eq!(mgr.running_count(), 2);

    // The spawned user is built from the configuration.
    assert_eq!(vu.url(), "http://test.com");
    assert_eq!(vu.graceful_shutdown_ns(), 0);
    assert_eq!(vu.metrics().http_request_time.count(), 0);

    let mut stopped = Metrics::new(SECOND);
    stopped.record_latency(10, 0);
    assert!(mgr.stop_merge_last(&stopped));
    assert_eq!(mgr.running_count(), 1);
    assert_eq!(mgr.get_overall_metrics().http_request_time.count(), 1);

    let mut stopped2 = Metrics::new(SECOND);
    stopped2.record_latency(30, 0);
    stopped2.record_latency(20, 0);
    assert!(mgr.stop_merge_last(&stopped2));
    assert_eq!(mgr.running_count(), 0);
    let overall = mgr.get_overall_metrics();
    assert_eq!(overall.http_request_time.count(), 3);
    assert_eq!(overall.http_request_time.min(), Some(10));
    assert_eq!(overall.http_request_time.max(), Some(30));
}

#[test]
fn test_stop_merge_on_empty_pool_changes_nothing() {
    let mut mgr = VirtualUserManager::new(VirtualUserConfig::new("http://test.com"));
    let stopped = Metrics::new(SECOND);
    assert!(!mgr.stop_merge_last(&stopped));
    assert_eq!(mgr.running_count(), 0);
    assert_eq!(mgr.get_overall_metrics().http_request_time.count(), 0);
}

#[test]
fn test_flat_segment_always_holds() {
    // A segment whose target equals the entry count decides Hold on every tick.
    for elapsed in [0, 1, 5 * SECOND, 10 * SECOND] {
        assert_eq!(tick_action(7, 7, 7, elapsed, 10 * SECOND), TickAction::Hold);
    }
}

#[test]
fn test_tick_ramps_up_linearly() {
    // From 0 to 10 users over 10 s: half-way the ideal is 5.
    assert_eq!(tick_action(0, 10, 0, 5 * SECOND, 10 * SECOND), TickAction::Spawn(5));
    // Once 5 are live, half-way demands nothing more.
    assert_eq!(tick_action(0, 10, 5, 5 * SECOND, 10 * SECOND), TickAction::Hold);
    // At the end of the segment the full target is due.
    assert_eq!(tick_action(0, 10, 5, 10 * SECOND, 10 * SECOND), TickAction::Spawn(5));
}

#[test]
fn test_tick_ramps_down_linearly() {
    assert_eq!(tick_action(10, 0, 10, 2 * SECOND, 10 * SECOND), TickAction::Stop(2));
    assert_eq!(tick_action(10, 0, 8, 2 * SECOND, 10 * SECOND), TickAction::Hold);
}

#[test]
fn test_tick_dead_band_suppresses_jitter() {
    // Ideal is 3.1: within one user of the live count, so hold.
    assert_eq!(tick_action(3, 4, 3, SECOND, 10 * SECOND), TickAction::Hold);
    // Ideal is 3.9: still inside the dead band.
    assert_eq!(tick_action(3, 4, 3, 9 * SECOND, 10 * SECOND), TickAction::Hold);
    // Ideal is 4.0: exactly one above, so spawn.
    assert_eq!(tick_action(3, 4, 3, 10 * SECOND, 10 * SECOND), TickAction::Spawn(1));
}

#[test]
fn test_fixup_converges_exactly() {
    assert_eq!(fixup_action(3, 5), TickAction::Spawn(2));
    assert_eq!(fixup_action(5, 3), TickAction::Stop(2));
    assert_eq!(fixup_action(4, 4), TickAction::Hold);
}

#[test]
fn test_zero_duration_segment_never_ticks() {
    assert!(!ramp_tick_pending(0, 0));
    assert!(!ramp_tick_pending(123, 0));
    assert!(ramp_tick_pending(0, 10));
    assert!(!ramp_tick_pending(10, 10));
}

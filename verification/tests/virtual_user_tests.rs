use rperf::VirtualUser;
use rperf::VirtualUserError;

const SECOND: u64 = 1_000_000_000;

#[test]
fn test_create_new_virtual_user() {
    let url = "http://test.com";
    let rps_window_size = SECOND;
    let vu = VirtualUser::new(url, rps_window_size).unwrap();
    assert_eq!(vu.url(), url);
    assert_eq!(vu.graceful_shutdown_ns(), 0);
}

#[test]
fn test_zero_window_is_rejected() {
    let vu = VirtualUser::new("http://test.com", 0);
    assert!(matches!(vu, Err(VirtualUserError::ZeroWindowSize)));
}

#[test]
fn test_set_graceful_shutdown() {
    let vu = VirtualUser::new("http://test.com", SECOND).unwrap();
    let vu = vu.set_graceful_shutdown(50_000_000);
    assert_eq!(vu.graceful_shutdown_ns(), 50_000_000);
    assert_eq!(vu.url(), "http://test.com");
}

#[test]
fn test_fresh_user_metrics_are_empty() {
    let vu = VirtualUser::new("http://test.com", SECOND).unwrap();
    let m = vu.metrics();
    assert_eq!(m.total_latency.count(), 0);
    assert_eq!(m.http_request_time.count(), 0);
    assert_eq!(m.total_errors, 0);
    assert_eq!(m.other_errors.len(), 0);
    assert_eq!(m.status_code_counts.len(), 0);
    assert!(!m.rps_summary.is_started());
}

#[test]
fn test_into_metrics_keeps_window() {
    let vu = VirtualUser::new("http://test.com", SECOND).unwrap();
    let mut m = vu.into_metrics();
    m.rps_summary.start(0);
    assert!(m.rps_summary.increment_request_count(10).is_ok());
}

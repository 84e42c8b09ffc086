use rperf::Metrics;

const SECOND: u64 = 1_000_000_000;

#[test]
fn test_record_latency_feeds_both_summaries() {
    let mut m = Metrics::new(SECOND);
    m.rps_summary.start(0);
    m.record_latency(5_000_000, 100);
    m.record_latency(7_000_000, 200);

    assert_eq!(m.total_latency.count(), 2);
    assert_eq!(m.total_latency.min(), Some(5_000_000));
    assert_eq!(m.total_latency.max(), Some(7_000_000));
    assert_eq!(m.http_request_time.count(), 2);
    assert_eq!(m.http_request_time.sum(), 12_000_000);
    // Both requests landed in the first window.
    let current = m.rps_summary.get_current_rps(300).unwrap().unwrap();
    assert_eq!(current.num, 2 * SECOND as u128);
}

#[test]
fn test_record_latency_before_start_drops_rps_error() {
    let mut m = Metrics::new(SECOND);
    m.record_latency(5_000_000, 0);
    assert_eq!(m.total_latency.count(), 1);
    assert!(!m.rps_summary.is_started());
}

#[test]
fn test_record_status_counts_per_code() {
    let mut m = Metrics::new(SECOND);
    m.record_status(200);
    m.record_status(200);
    m.record_status(503);

    assert_eq!(m.status_count(200), 2);
    assert_eq!(m.status_count(503), 1);
    assert_eq!(m.status_count(404), 0);
}

#[test]
fn test_record_transport_error() {
    let mut m = Metrics::new(SECOND);
    m.record_transport_error(String::from("connection refused"));
    assert_eq!(m.total_errors, 1);
    assert_eq!(m.other_errors.len(), 1);
    assert_eq!(m.other_errors[0], "connection refused");
}

#[test]
fn test_merge_adds_everything() {
    let mut dest = Metrics::new(SECOND);
    dest.record_latency(10, 0);
    dest.record_status(200);
    dest.record_transport_error(String::from("timed out"));

    let mut src = Metrics::new(SECOND);
    src.record_latency(30, 0);
    src.record_latency(5, 0);
    src.record_status(200);
    src.record_status(500);
    src.record_transport_error(String::from("reset by peer"));

    dest.merge_from(&src);

    assert_eq!(dest.total_latency.count(), 3);
    assert_eq!(dest.total_latency.min(), Some(5));
    assert_eq!(dest.total_latency.max(), Some(30));
    assert_eq!(dest.http_request_time.count(), 3);
    assert_eq!(dest.total_errors, 2);
    assert_eq!(dest.other_errors.len(), 2);
    assert_eq!(dest.other_errors[0], "timed out");
    assert_eq!(dest.other_errors[1], "reset by peer");
    assert_eq!(dest.status_count(200), 2);
    assert_eq!(dest.status_count(500), 1);
}

#[test]
fn test_merge_empty_metrics_is_identity() {
    let mut dest = Metrics::new(SECOND);
    dest.record_latency(10, 0);
    dest.record_latency(20, 0);
    dest.record_status(200);
    dest.record_transport_error(String::from("oops"));

    let empty = Metrics::default();
    dest.merge_from(&empty);

    assert_eq!(dest.total_latency.count(), 2);
    assert_eq!(dest.total_latency.min(), Some(10));
    assert_eq!(dest.total_latency.max(), Some(20));
    assert_eq!(dest.total_latency.sum(), 30);
    assert_eq!(dest.http_request_time.count(), 2);
    assert_eq!(dest.tcp_connect_time.count(), 0);
    assert_eq!(dest.total_errors, 1);
    assert_eq!(dest.other_errors.len(), 1);
    assert_eq!(dest.status_count(200), 1);
}

#[test]
fn test_merge_does_not_touch_rps_windows() {
    let mut dest = Metrics::new(SECOND);
    dest.rps_summary.start(0);
    dest.record_latency(10, 100);

    let mut src = Metrics::new(SECOND);
    src.rps_summary.start(0);
    src.record_latency(10, 100);
    src.record_latency(10, 200);

    dest.merge_from(&src);
    // The destination's window counter still holds only its own request.
    let current = dest.rps_summary.get_current_rps(300).unwrap().unwrap();
    assert_eq!(current.num, SECOND as u128);
}

#[test]
fn test_reserved_summaries_stay_empty() {
    let mut m = Metrics::new(SECOND);
    m.record_latency(10, 0);
    m.record_status(200);
    m.record_transport_error(String::from("x"));
    assert_eq!(m.tcp_connect_time.count(), 0);
    assert_eq!(m.tls_handshake_time.count(), 0);
    assert_eq!(m.error_rates_per_sec.count(), 0);
}

use rperf::Ratio;
use rperf::RpsSummary;
use rperf::RpsSummaryError;

/// Nanoseconds in one second, matching the library's rate conversion.
const SECOND: u64 = 1_000_000_000;

fn to_rps(r: Ratio) -> f64 {
    r.num as f64 / r.den as f64
}

#[test]
fn test_increment_without_start() {
    let mut rps = RpsSummary::new(SECOND);
    assert!(rps.increment_request_count(0).is_err());
    assert!(rps.get_current_rps(0).is_err());
    assert!(rps.get_average_rps(0).is_err());
    assert!(rps.get_all_rps().is_err());
}

#[test]
fn test_increment_and_get_current_rps() {
    let window = SECOND;
    let mut rps = RpsSummary::new(window);
    rps.start(0);
    assert!(rps.increment_request_count(100_000_000).is_ok());

    let current_rps = to_rps(rps.get_current_rps(150_000_000).unwrap().unwrap());
    assert!((current_rps - 1.0).abs() < 0.1);
}

#[test]
fn test_increment_in_multiple_windows() {
    let window: u64 = 10_000_000;
    let mut rps = RpsSummary::new(window);
    rps.start(0);

    assert!(rps.increment_request_count(0).is_ok());

    assert!(rps.increment_request_count(15_000_000).is_ok());

    let rps_vec = rps.get_all_rps().unwrap();

    assert!(rps_vec.len() >= 2);
    assert!(to_rps(rps_vec[0]) > 0.0);
    assert!(to_rps(rps_vec[1]) > 0.0);
}

#[test]
fn test_reset() {
    let window = SECOND;
    let mut rps = RpsSummary::new(window);
    rps.start(0);
    assert!(rps.increment_request_count(0).is_ok());
    rps.reset();
    assert_eq!(rps.num_windows(), 0);
    assert!(!rps.is_started());
}

#[test]
fn test_not_started_error_variant() {
    let mut rps = RpsSummary::new(SECOND);
    assert_eq!(rps.increment_request_count(0), Err(RpsSummaryError::NotStarted));
    assert_eq!(rps.get_current_rps(0), Err(RpsSummaryError::NotStarted));
    assert_eq!(rps.get_average_rps(0), Err(RpsSummaryError::NotStarted));
    assert_eq!(rps.get_all_rps(), Err(RpsSummaryError::NotStarted));
}

#[test]
fn test_empty_request_count_error_variant() {
    let mut rps = RpsSummary::new(SECOND);
    rps.start(0);
    assert_eq!(rps.get_current_rps(0), Err(RpsSummaryError::EmptyRequestCount));
    assert_eq!(rps.get_average_rps(0), Err(RpsSummaryError::EmptyRequestCount));
    assert_eq!(rps.get_all_rps(), Err(RpsSummaryError::EmptyRequestCount));
}

#[test]
fn test_current_window_without_requests_is_absent() {
    let mut rps = RpsSummary::new(SECOND);
    rps.start(0);
    assert!(rps.increment_request_count(100).is_ok());
    // Two and a half seconds in, only the first window was ever written.
    assert_eq!(rps.get_current_rps(2_500_000_000), Ok(None));
}

#[test]
fn test_current_rps_exact_value() {
    let window = SECOND;
    let mut rps = RpsSummary::new(window);
    rps.start(1_000);
    assert!(rps.increment_request_count(1_000).is_ok());
    assert!(rps.increment_request_count(500_000_000).is_ok());
    let current = rps.get_current_rps(900_000_000).unwrap().unwrap();
    assert_eq!(current, Ratio { num: 2 * SECOND as u128, den: SECOND });
    assert_eq!(to_rps(current), 2.0);
}

#[test]
fn test_average_rps_exact_value() {
    let mut rps = RpsSummary::new(SECOND);
    rps.start(0);
    assert!(rps.increment_request_count(0).is_ok());
    assert!(rps.increment_request_count(SECOND).is_ok());
    let avg = rps.get_average_rps(2 * SECOND).unwrap().unwrap();
    assert_eq!(avg, Ratio { num: 2 * SECOND as u128, den: 2 * SECOND });
    assert_eq!(to_rps(avg), 1.0);
}

#[test]
fn test_gap_windows_are_zero() {
    let window: u64 = 10_000_000;
    let mut rps = RpsSummary::new(window);
    rps.start(0);
    assert!(rps.increment_request_count(0).is_ok());
    assert!(rps.increment_request_count(35_000_000).is_ok());
    let all = rps.get_all_rps().unwrap();
    assert_eq!(all.len(), 4);
    assert!(to_rps(all[0]) > 0.0);
    assert_eq!(to_rps(all[1]), 0.0);
    assert_eq!(to_rps(all[2]), 0.0);
    assert!(to_rps(all[3]) > 0.0);
}

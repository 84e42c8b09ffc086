use rperf::Ratio;
use rperf::Summary;

#[test]
fn test_empty_summary() {
    let summary = Summary::new();
    assert_eq!(summary.count(), 0);
    assert_eq!(summary.sum(), 0);
    assert_eq!(summary.min(), None);
    assert_eq!(summary.max(), None);
    assert_eq!(summary.average(), None);
}

#[test]
fn test_update() {
    let mut summary = Summary::new();
    summary.update(10);
    summary.update(5);
    summary.update(20);

    assert_eq!(summary.count(), 3);
    assert_eq!(summary.sum(), 35);
    assert_eq!(summary.min(), Some(5));
    assert_eq!(summary.max(), Some(20));
    let avg = summary.average().unwrap();
    assert_eq!(avg, Ratio { num: 35, den: 3 });
    assert_eq!(avg.num as f64 / avg.den as f64, 35.0 / 3.0);
}

#[test]
fn test_update_optional() {
    let mut summary = Summary::new();
    summary.update_optional(Some(15));
    summary.update_optional(None);
    summary.update_optional(Some(5));

    assert_eq!(summary.count(), 2);
    assert_eq!(summary.sum(), 20);
    assert_eq!(summary.min(), Some(5));
    assert_eq!(summary.max(), Some(15));
}

#[test]
fn test_merge_combines_statistics() {
    let mut a = Summary::new();
    a.update(10);
    a.update(30);
    let mut b = Summary::new();
    b.update(5);
    b.update(20);

    a.merge_from(&b);
    assert_eq!(a.count(), 4);
    assert_eq!(a.sum(), 65);
    assert_eq!(a.min(), Some(5));
    assert_eq!(a.max(), Some(30));
}

#[test]
fn test_merge_empty_source_is_identity() {
    let mut a = Summary::new();
    a.update(10);
    a.update(30);
    let b = Summary::new();

    a.merge_from(&b);
    assert_eq!(a.count(), 2);
    assert_eq!(a.sum(), 40);
    assert_eq!(a.min(), Some(10));
    assert_eq!(a.max(), Some(30));
}

#[test]
fn test_merge_into_empty_destination() {
    let mut a = Summary::new();
    let mut b = Summary::new();
    b.update(7);

    a.merge_from(&b);
    assert_eq!(a.count(), 1);
    assert_eq!(a.min(), Some(7));
    assert_eq!(a.max(), Some(7));
}

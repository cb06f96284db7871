use rust_iss::errors::ServiceError;
use rust_iss::position::{IssRepo, IssService};
use rust_iss::time::{elapsed_millis, UtcTime};

fn payload(text: &str) -> serde_json::Value {
    serde_json::from_str(text).unwrap()
}

fn at(secs: i64, nanos: u32) -> UtcTime {
    UtcTime { secs, nanos }
}

#[test]
fn trend_needs_two_snapshots() {
    let mut svc = IssService::new("https://example.test/iss");
    assert!(svc.trend().is_none());
    svc.fetch_and_store(Some(payload(r#"{"latitude": 51.0, "longitude": 0.0}"#)), at(0, 0)).unwrap();
    assert!(svc.trend().is_none());
}

#[test]
fn trend_pairs_previous_and_newest() {
    let mut svc = IssService::new("https://example.test/iss");
    svc.fetch_and_store(Some(payload(r#"{"latitude": 51.0, "longitude": 0.0}"#)), at(1_000, 0)).unwrap();
    svc.fetch_and_store(Some(payload(r#"{"latitude": 51.01, "longitude": 0.0}"#)), at(1_120, 0)).unwrap();
    let t = svc.trend().unwrap();
    assert_eq!(t.previous.id, 1);
    assert_eq!(t.newest.id, 2);
    assert_eq!(t.elapsed_millis(), 120_000);
}

#[test]
fn triggers_append_in_call_order() {
    let mut svc = IssService::new("https://example.test/iss");
    let a = svc.trigger_fetch(Some(payload(r#"{"n": 1}"#)), at(1, 0)).unwrap();
    let b = svc.trigger_fetch(Some(payload(r#"{"n": 2}"#)), at(2, 0)).unwrap();
    assert_eq!((a.id, b.id), (1, 2));
    assert_eq!(a.source_url, "https://example.test/iss");
    assert_eq!(svc.last().unwrap().payload, payload(r#"{"n": 2}"#));
    assert_eq!(svc.source_url(), "https://example.test/iss");
}

#[test]
fn failed_fetch_leaves_log_unchanged() {
    let mut svc = IssService::new("u");
    assert!(matches!(svc.fetch_and_store(None, at(1, 0)), Err(ServiceError::UpstreamFetch)));
    assert!(svc.last().is_none());
}

#[test]
fn last_points_newest_first() {
    let mut repo = IssRepo::new();
    for i in 0..3 {
        repo.insert_entry("u", payload(&format!(r#"{{"n": {}}}"#, i)), at(i, 0)).unwrap();
    }
    let pts = repo.last_points(2);
    assert_eq!(pts.len(), 2);
    assert_eq!((pts[0].id, pts[1].id), (3, 2));
    assert_eq!(repo.last_points(-5).len(), 0);
    assert_eq!(repo.last_entry().unwrap().id, 3);
}

#[test]
fn elapsed_millis_truncates_toward_zero() {
    assert_eq!(elapsed_millis(at(10, 0), at(130, 0)), 120_000);
    assert_eq!(elapsed_millis(at(10, 0), at(10, 1_999_999)), 1);
    assert_eq!(elapsed_millis(at(10, 1_999_999), at(10, 0)), -1);
    assert_eq!(elapsed_millis(at(130, 0), at(10, 0)), -120_000);
    assert_eq!(elapsed_millis(at(0, 500_000_000), at(1, 0)), 500);
}

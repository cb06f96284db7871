use chrono::Datelike;
use rust_iss::cache::{date_window, plan_refresh_on, RefreshAttempt, SpaceCacheService, MAX_DAY, MIN_DAY};
use rust_iss::catalog::OsdrService;
use rust_iss::errors::ServiceError;
use rust_iss::position::IssService;
use rust_iss::sources::{normalize_name, Source};
use rust_iss::time::UtcTime;

fn day(y: i32, m: u32, d: u32) -> i32 {
    chrono::NaiveDate::from_ymd_opt(y, m, d).unwrap().num_days_from_ce()
}

fn payload(text: &str) -> serde_json::Value {
    serde_json::from_str(text).unwrap()
}

fn now() -> UtcTime {
    UtcTime { secs: 1_700_000_000, nanos: 0 }
}

#[test]
fn plan_windows_use_calendar_days() {
    let names = vec!["neo".to_string(), "FLR".to_string(), " cme ".to_string(), "apod".to_string()];
    let steps = plan_refresh_on(&names, day(2024, 3, 10));
    assert_eq!(steps.len(), 4);
    let neo = steps[0].request.as_ref().unwrap();
    assert_eq!(neo.source, Source::Neo);
    let w = neo.window.as_ref().unwrap();
    assert_eq!((w.start.as_str(), w.end.as_str()), ("2024-03-08", "2024-03-10"));
    let flr = steps[1].request.as_ref().unwrap();
    assert_eq!(steps[1].name, "flr");
    assert_eq!(flr.window.as_ref().unwrap().start, "2024-03-05");
    assert_eq!(steps[2].name, "cme");
    let cme = steps[2].request.as_ref().unwrap();
    assert_eq!(cme.window.as_ref().unwrap().end, "2024-03-10");
    assert!(steps[3].request.as_ref().unwrap().window.is_none());
}

#[test]
fn plan_window_crosses_month() {
    let steps = plan_refresh_on(&vec!["neo".to_string()], day(2024, 3, 1));
    let w = steps[0].request.as_ref().unwrap().window.as_ref().unwrap();
    assert_eq!(w.start, "2024-02-28");
}

#[test]
fn refresh_mixture_lists_only_valid() {
    let mut svc = SpaceCacheService::new(vec![]);
    let steps = plan_refresh_on(&vec!["apod".to_string(), "bogus".to_string()], day(2024, 1, 1));
    assert!(matches!(steps[1].request, Err(ServiceError::UnsupportedSource)));
    let mut attempts = Vec::new();
    let mut it = steps.into_iter();
    attempts.push(RefreshAttempt { step: it.next().unwrap(), payload: Some(payload(r#"{"title": "pic"}"#)) });
    attempts.push(RefreshAttempt { step: it.next().unwrap(), payload: None });
    let res = svc.refresh_sources(attempts, now()).ok().unwrap();
    assert_eq!(res.refreshed, vec!["apod".to_string()]);
    let latest = svc.latest("APOD");
    assert_eq!(latest.source, "apod");
    assert_eq!(latest.fetched_at, Some(now()));
    assert_eq!(latest.payload, Some(payload(r#"{"title": "pic"}"#)));
    assert!(latest.message.is_none());
}

#[test]
fn refresh_all_failing_writes_nothing() {
    let mut svc = SpaceCacheService::new(vec![]);
    let steps = plan_refresh_on(&vec!["bogus".to_string(), "neo".to_string()], day(2024, 1, 1));
    let attempts: Vec<RefreshAttempt> = steps.into_iter().map(|step| RefreshAttempt { step, payload: None }).collect();
    assert!(matches!(svc.refresh_sources(attempts, now()), Err(ServiceError::NoSourcesRefreshed)));
    assert!(svc.latest("neo").fetched_at.is_none());
    assert!(matches!(svc.refresh_sources(vec![], now()), Err(ServiceError::NoSourcesRefreshed)));
}

#[test]
fn latest_without_rows_is_explicit_empty() {
    let svc = SpaceCacheService::new(vec![]);
    let r = svc.latest("Neo");
    assert_eq!(r.source, "neo");
    assert_eq!(r.fetched_at, None);
    assert!(r.payload.is_none());
    assert_eq!(r.message.as_deref(), Some("no data"));
    let unknown = svc.latest("Whatever");
    assert_eq!(unknown.source, "whatever");
    assert_eq!(unknown.message.as_deref(), Some("no data"));
}

#[test]
fn latest_takes_newest_row() {
    let mut svc = SpaceCacheService::new(vec![]);
    for (i, text) in [r#"{"n": 1}"#, r#"{"n": 2}"#].iter().enumerate() {
        let steps = plan_refresh_on(&vec!["spacex".to_string()], day(2024, 1, 1));
        let step = steps.into_iter().next().unwrap();
        let t = UtcTime { secs: 10 + i as i64, nanos: 0 };
        assert!(svc.refresh_sources(vec![RefreshAttempt { step, payload: Some(payload(text)) }], t).is_ok());
    }
    let r = svc.latest("spacex");
    assert_eq!(r.payload, Some(payload(r#"{"n": 2}"#)));
    assert_eq!(r.fetched_at, Some(UtcTime { secs: 11, nanos: 0 }));
}

#[test]
fn summary_fills_placeholders() {
    let mut svc = SpaceCacheService::new(vec!["apod".to_string()]);
    let steps = svc.plan_defaults(day(2024, 1, 1));
    assert_eq!(steps.len(), 1);
    let step = steps.into_iter().next().unwrap();
    assert!(svc.refresh_sources(vec![RefreshAttempt { step, payload: Some(payload("{}")) }], now()).is_ok());
    let mut iss = IssService::new("https://example.test/iss");
    let osdr = OsdrService::new();
    let empty = svc.summary(&iss, &osdr);
    assert!(empty.apod.is_some());
    assert!(empty.neo.is_none() && empty.flr.is_none() && empty.cme.is_none() && empty.spacex.is_none());
    assert!(empty.iss.is_none());
    assert_eq!(empty.osdr_count, 0);
    assert!(iss.fetch_and_store(Some(payload(r#"{"latitude": 1.0}"#)), now()).is_ok());
    let s = svc.summary(&iss, &osdr);
    assert_eq!(s.iss.unwrap().id, 1);
}

#[test]
fn default_sources_round_trip() {
    let svc = SpaceCacheService::new(vec!["apod".to_string(), "neo".to_string()]);
    assert_eq!(svc.default_sources(), vec!["apod".to_string(), "neo".to_string()]);
}

#[test]
fn source_names_normalize() {
    assert_eq!(normalize_name("  SpaceX\t"), "spacex");
    assert_eq!(Source::from_name("spacex"), Some(Source::Spacex));
    assert_eq!(Source::from_name("SpaceX"), None);
    assert_eq!(Source::Cme.name(), "cme");
    assert_eq!(Source::Neo.window_days(), Some(2));
    assert_eq!(Source::Flr.window_days(), Some(5));
    assert_eq!(Source::Apod.window_days(), None);
    assert_eq!(Source::all().len(), 5);
}

#[test]
fn window_days_match_chrono_range() {
    assert_eq!(chrono::NaiveDate::MIN.num_days_from_ce(), MIN_DAY);
    assert_eq!(chrono::NaiveDate::MAX.num_days_from_ce(), MAX_DAY);
    assert!(date_window(2, MIN_DAY + 2).is_some());
    assert!(date_window(2, MIN_DAY + 1).is_none());
    assert!(date_window(0, MAX_DAY).is_some());
    assert!(date_window(0, MAX_DAY + 1).is_none());
    let steps = plan_refresh_on(&vec!["neo".to_string(), "apod".to_string()], MIN_DAY);
    assert!(matches!(steps[0].request, Err(ServiceError::UpstreamFetch)));
    assert!(steps[1].request.is_ok());
}

#[test]
fn cache_refuses_earlier_times() {
    let mut svc = SpaceCacheService::new(vec![]);
    let step = plan_refresh_on(&vec!["apod".to_string()], day(2024, 1, 1)).into_iter().next().unwrap();
    assert!(svc.accepts_time(now()));
    assert!(svc.refresh_sources(vec![RefreshAttempt { step, payload: Some(payload("{}")) }], now()).is_ok());
    assert!(svc.accepts_time(now()));
    assert!(!svc.accepts_time(UtcTime { secs: 1_699_999_999, nanos: 999_999_999 }));
    assert!(!svc.accepts_time(UtcTime { secs: 1_699_999_998, nanos: 1_500_000_000 }));
}

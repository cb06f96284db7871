use rust_iss::config::{AppConfig, ConfigError, OsdrListQuery, RefreshQuery, ServerConfig};
use rust_iss::errors::{ApiError, ServiceError};
use rust_iss::schedule::{after_cycle, Job, SchedulerConfig};
use rust_iss::text::{parse_i64, parse_sources, parse_u64};

fn env(pairs: &[(&str, &str)]) -> Vec<(String, String)> {
    pairs.iter().map(|(k, v)| (k.to_string(), v.to_string())).collect()
}

#[test]
fn integer_parsing_matches_std() {
    assert_eq!(parse_u64("+5"), Some(5));
    assert_eq!(parse_u64("18446744073709551615"), Some(u64::MAX));
    assert_eq!(parse_u64("18446744073709551616"), None);
    assert_eq!(parse_u64("-1"), None);
    assert_eq!(parse_u64(""), None);
    assert_eq!(parse_u64("+"), None);
    assert_eq!(parse_u64(" 1"), None);
    assert_eq!(parse_i64("-9223372036854775808"), Some(i64::MIN));
    assert_eq!(parse_i64("9223372036854775808"), None);
    assert_eq!(parse_i64("-12"), Some(-12));
    assert_eq!(parse_i64("-"), None);
}

#[test]
fn source_list_parsing() {
    assert_eq!(parse_sources(" APOD, ,neo ,"), vec!["apod".to_string(), "neo".to_string()]);
    assert_eq!(parse_sources(""), Vec::<String>::new());
}

#[test]
fn scheduler_defaults_and_overrides() {
    let c = SchedulerConfig::load(&env(&[("ISS_EVERY_SECONDS", "30"), ("NEO_EVERY_SECONDS", "x")]));
    assert_eq!(c, SchedulerConfig { osdr: 600, iss: 30, apod: 43_200, neo: 7_200, donki: 3_600, spacex: 3_600 });
}

#[test]
fn app_config_requires_database_url() {
    assert!(matches!(AppConfig::load(&env(&[])), Err(ConfigError::MissingDatabaseUrl)));
    let c = AppConfig::load(&env(&[
        ("DATABASE_URL", "postgres://db"),
        ("NASA_API_KEY", ""),
        ("OSDR_LIST_LIMIT", "-3"),
        ("SPACE_REFRESH_DEFAULTS", "Neo,spacex"),
        ("RUST_ISS_PORT", "70000"),
    ]))
    .ok()
    .unwrap();
    assert_eq!(c.database.url, "postgres://db");
    assert_eq!(c.database.max_connections, 5);
    assert_eq!(c.nasa_api_key, None);
    assert_eq!(c.osdr_list_limit, -3);
    assert_eq!(c.refresh_defaults, vec!["neo".to_string(), "spacex".to_string()]);
    assert_eq!(c.server.port, 3000);
    assert_eq!(c.user_agent, "rust_iss/1.0");
    let d = AppConfig::load(&env(&[("DATABASE_URL", "x")])).ok().unwrap();
    assert_eq!(d.refresh_defaults.len(), 5);
    assert_eq!(d.iss_url, "https://api.wheretheiss.at/v1/satellites/25544");
}

#[test]
fn server_config_defaults() {
    let s = ServerConfig::load(&env(&[("RUST_ISS_HOST", "127.0.0.1")]));
    assert_eq!((s.host.as_str(), s.port), ("127.0.0.1", 3000));
}

#[test]
fn query_helpers() {
    let defaults = vec!["apod".to_string()];
    let q = RefreshQuery { src: Some(" , ".to_string()) };
    assert_eq!(q.sources(&defaults), defaults);
    let q2 = RefreshQuery { src: Some("CME".to_string()) };
    assert_eq!(q2.sources(&defaults), vec!["cme".to_string()]);
    assert_eq!(OsdrListQuery { limit: Some(0) }.effective_limit(20), 1);
    assert_eq!(OsdrListQuery { limit: Some(1000) }.effective_limit(20), 200);
    assert_eq!(OsdrListQuery { limit: None }.effective_limit(20), 20);
}

#[test]
fn api_error_carries_trace_id() {
    let id = uuid::Uuid::new_v4().to_string();
    let e = ApiError::from_error("OSDR_SYNC_FAILED", ServiceError::StorageWrite, id.clone());
    assert_eq!(e.body.code, "OSDR_SYNC_FAILED");
    assert_eq!(e.body.message, "storage write failed");
    assert_eq!(e.body.trace_id, id);
    assert_eq!(e.tracing_code(), id);
    let f = ApiError::new("X", "m".to_string(), "t-1".to_string());
    assert_eq!((f.body.message.as_str(), f.tracing_code()), ("m", "t-1"));
    assert_eq!(ServiceError::NoSourcesRefreshed.message(), "no sources refreshed successfully");
}

#[test]
fn scheduler_cycle_decisions() {
    let c = SchedulerConfig { osdr: 1, iss: 2, apod: 3, neo: 4, donki: 5, spacex: 6 };
    let a = after_cycle(&c, Job::SpaceDonki, Err(ServiceError::NoSourcesRefreshed));
    assert_eq!(a.failure, Some(ServiceError::NoSourcesRefreshed));
    assert_eq!(a.sleep_secs, 5);
    let b = after_cycle(&c, Job::IssFetch, Ok(()));
    assert_eq!((b.failure, b.sleep_secs), (None, 2));
    assert_eq!(Job::SpaceDonki.source_names(), vec!["flr".to_string(), "cme".to_string()]);
    assert_eq!(Job::OsdrSync.source_names().len(), 0);
    assert_eq!(Job::SpaceNeo.name(), "space_neo");
    assert_eq!(Job::all().len(), 6);
}

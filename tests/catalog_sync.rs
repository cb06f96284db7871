use rust_iss::catalog::{CatalogItem, OsdrRepo, OsdrService};
use rust_iss::errors::ServiceError;
use rust_iss::json::{catalog_documents, fields_of, FieldValue};
use rust_iss::normalize::{pick_datetime, pick_string, MAX_EPOCH_SECS, MIN_EPOCH_SECS};
use rust_iss::time::UtcTime;

fn doc(text: &str) -> serde_json::Value {
    serde_json::from_str(text).unwrap()
}

fn at(secs: i64) -> UtcTime {
    UtcTime { secs, nanos: 0 }
}

#[test]
fn sync_twice_same_identifier_keeps_one_record() {
    let mut svc = OsdrService::new();
    let first = doc(r#"{"id": "GLDS-1", "title": "Study A"}"#);
    let second = doc(r#"{"id": "GLDS-1", "title": "Study A revised"}"#);
    assert_eq!(svc.sync(Some(vec![first]), at(100)), Ok(1));
    assert_eq!(svc.sync(Some(vec![second.clone()]), at(200)), Ok(1));
    assert_eq!(svc.count(), 1);
    let rows = svc.list(10);
    assert_eq!(rows.len(), 1);
    assert_eq!(rows[0].dataset_id.as_deref(), Some("GLDS-1"));
    assert_eq!(rows[0].title.as_deref(), Some("Study A revised"));
    assert_eq!(rows[0].raw, second);
    assert_eq!(rows[0].inserted_at, at(100));
    assert_eq!(rows[0].id, 1);
}

#[test]
fn sync_without_identifier_inserts_every_time() {
    let mut svc = OsdrService::new();
    let batch = vec![doc(r#"{"title": "no key"}"#), doc(r#"{"name": "also no key"}"#)];
    assert_eq!(svc.sync(Some(batch.clone()), at(1)), Ok(2));
    assert_eq!(svc.sync(Some(batch), at(2)), Ok(2));
    assert_eq!(svc.count(), 4);
    let rows = svc.list(10);
    assert!(rows.iter().all(|r| r.dataset_id.is_none()));
    assert_eq!(rows[0].title.as_deref(), Some("also no key"));
}

#[test]
fn sync_upstream_failure_writes_nothing() {
    let mut svc = OsdrService::new();
    assert_eq!(svc.sync(None, at(1)), Err(ServiceError::UpstreamFetch));
    assert_eq!(svc.count(), 0);
}

#[test]
fn identifier_aliases_in_order() {
    let mut svc = OsdrService::new();
    let docs = vec![
        doc(r#"{"dataset_id": "", "uuid": "u-1", "state": "done"}"#),
        doc(r#"{"id": 42, "label": "numeric"}"#),
        doc(r#"{"studyId": "S-9", "accession": "A-1", "status": "open", "lifecycle": "x"}"#),
    ];
    assert_eq!(svc.sync(Some(docs), at(5)), Ok(3));
    let rows = svc.list(3);
    assert_eq!(rows[2].dataset_id.as_deref(), Some("u-1"));
    assert_eq!(rows[2].status.as_deref(), Some("done"));
    assert_eq!(rows[1].dataset_id.as_deref(), Some("42"));
    assert_eq!(rows[1].title.as_deref(), Some("numeric"));
    assert_eq!(rows[0].dataset_id.as_deref(), Some("S-9"));
    assert_eq!(rows[0].status.as_deref(), Some("open"));
}

#[test]
fn update_time_parse_order() {
    let expected = Some(at(1_704_164_645));
    let a = CatalogItem::from_document(doc(r#"{"updated": "2024-01-02T03:04:05Z"}"#));
    assert_eq!(a.updated_at, expected);
    let b = CatalogItem::from_document(doc(r#"{"modified": "2024-01-02 03:04:05"}"#));
    assert_eq!(b.updated_at, expected);
    let c = CatalogItem::from_document(doc(r#"{"timestamp": 1704164645}"#));
    assert_eq!(c.updated_at, expected);
    let d = CatalogItem::from_document(doc(r#"{"updated": "yesterday", "updated_at": "2024-01-02T05:04:05+02:00"}"#));
    assert_eq!(d.updated_at, expected);
    let e = CatalogItem::from_document(doc(r#"{"title": "none"}"#));
    assert_eq!(e.updated_at, None);
    let f = CatalogItem::from_document(doc(r#"{"updated": "2024-01-02T03:04:05.250Z"}"#));
    assert_eq!(f.updated_at, Some(UtcTime { secs: 1_704_164_645, nanos: 250_000_000 }));
}

#[test]
fn pick_text_skips_empty_and_non_text() {
    let fields = vec![
        FieldValue::Absent,
        FieldValue::Other,
        FieldValue::Text(String::new()),
        FieldValue::Number("7.5".to_string(), None),
        FieldValue::Text("later".to_string()),
    ];
    assert_eq!(pick_string(&fields), Some("7.5".to_string()));
    assert_eq!(pick_string(&vec![FieldValue::Absent, FieldValue::Text(String::new())]), None);
}

#[test]
fn pick_instant_reads_integers_only() {
    let fields = vec![FieldValue::Number("1.5".to_string(), None), FieldValue::Number("60".to_string(), Some(60))];
    assert_eq!(pick_datetime(&fields), Some(at(60)));
    assert_eq!(pick_datetime(&vec![FieldValue::Other]), None);
}

#[test]
fn fields_of_reads_members() {
    let d = doc(r#"{"a": "x", "b": 3, "c": null}"#);
    let f = fields_of(&d, &vec!["a", "b", "c", "d"]);
    assert_eq!(f, vec![
        FieldValue::Text("x".to_string()),
        FieldValue::Number("3".to_string(), Some(3)),
        FieldValue::Other,
        FieldValue::Absent,
    ]);
}

#[test]
fn list_newest_first_with_limit() {
    let mut repo = OsdrRepo::new();
    for i in 0..5 {
        let item = CatalogItem::from_document(doc(&format!(r#"{{"id": "k{}"}}"#, i)));
        assert_eq!(repo.upsert_item(item, at(i)), Ok(()));
    }
    let rows = repo.list(2);
    assert_eq!(rows.len(), 2);
    assert_eq!(rows[0].dataset_id.as_deref(), Some("k4"));
    assert_eq!(rows[1].dataset_id.as_deref(), Some("k3"));
    assert_eq!(repo.list(-1).len(), 0);
    assert_eq!(repo.list(100).len(), 5);
    assert_eq!(repo.count(), 5);
}

#[test]
fn catalog_documents_shapes() {
    assert_eq!(catalog_documents(doc(r#"[{"id": 1}, {"id": 2}]"#)).len(), 2);
    assert_eq!(catalog_documents(doc(r#"{"items": [{"id": 1}]}"#)), vec![doc(r#"{"id": 1}"#)]);
    assert_eq!(catalog_documents(doc(r#"{"results": [{"id": 1}, {"id": 3}]}"#)).len(), 2);
    let single = doc(r#"{"id": "solo"}"#);
    assert_eq!(catalog_documents(single.clone()), vec![single]);
}

#[test]
fn resync_of_identified_batch_adds_no_row() {
    let mut svc = OsdrService::new();
    let batch = vec![
        doc(r#"{"dataset_id": "A", "title": "one"}"#),
        doc(r#"{"accession": "B", "status": "s"}"#),
    ];
    assert_eq!(svc.sync(Some(batch.clone()), at(1)), Ok(2));
    assert_eq!(svc.sync(Some(batch), at(2)), Ok(2));
    assert_eq!(svc.count(), 2);
}

#[test]
fn from_fields_takes_first_usable_member() {
    let raw = doc("{}");
    let item = CatalogItem::from_fields(
        &vec![FieldValue::Absent, FieldValue::Text("x-1".to_string())],
        &vec![FieldValue::Number("12".to_string(), Some(12))],
        &vec![FieldValue::Other],
        &vec![FieldValue::Text("2020-02-29 12:00:00".to_string())],
        raw.clone(),
    );
    assert_eq!(item.dataset_id.as_deref(), Some("x-1"));
    assert_eq!(item.title.as_deref(), Some("12"));
    assert_eq!(item.status, None);
    assert_eq!(item.updated_at, Some(at(1_582_977_600)));
    assert_eq!(item.raw, raw);
}

#[test]
fn catalog_refuses_earlier_insert_times() {
    let mut svc = OsdrService::new();
    assert_eq!(svc.sync(Some(vec![doc(r#"{"id": "a"}"#)]), at(10)), Ok(1));
    assert!(svc.accepts_time(at(10)));
    assert!(!svc.accepts_time(at(9)));
}

#[test]
fn epoch_bounds_match_chrono() {
    assert!(chrono::DateTime::from_timestamp(MAX_EPOCH_SECS, 0).is_some());
    assert!(chrono::DateTime::from_timestamp(MAX_EPOCH_SECS + 1, 0).is_none());
    assert!(chrono::DateTime::from_timestamp(MIN_EPOCH_SECS, 0).is_some());
    assert!(chrono::DateTime::from_timestamp(MIN_EPOCH_SECS - 1, 0).is_none());
    let num = |e: i64| FieldValue::Number(e.to_string(), Some(e));
    assert_eq!(pick_datetime(&vec![num(MAX_EPOCH_SECS)]), Some(at(MAX_EPOCH_SECS)));
    assert_eq!(pick_datetime(&vec![num(MAX_EPOCH_SECS + 1)]), None);
    assert_eq!(pick_datetime(&vec![num(MIN_EPOCH_SECS - 1), num(0)]), Some(at(0)));
}

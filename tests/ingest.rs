use cube_server::digest::compute_hash;
use cube_server::ingest::{
    complete_upload, form_upload_meta, plan_upload, raw_upload_meta, record_stored_file, upload_meta,
    UploadError, UploadMeta, UploadPlan,
};
use cube_server::paths::YearMonth;
use cube_server::store::MetadataStore;

fn meta(user: &str, name: &str) -> UploadMeta {
    UploadMeta { username: user.to_string(), filename: name.to_string(), modified_at: None }
}

#[test]
fn same_bytes_are_stored_once() {
    let mut store = MetadataStore::new();
    let data = b"raw image bytes".to_vec();
    let m = meta("alice", "img.raw");
    let plan = plan_upload(&store, &data, "/up", &m);
    let (hash, target) = match plan {
        UploadPlan::Store { hash, target } => (hash, target),
        UploadPlan::Duplicate { .. } => panic!("first upload planned as duplicate"),
    };
    assert_eq!(hash, compute_hash(&data));
    assert_eq!(target.dir, "/up/alice");
    assert_eq!(target.file, "/up/alice/img.raw");
    let event = complete_upload(&mut store, &hash, &m, &target).expect("first upload recorded");
    let expected = format!(
        "{{\"event\":\"copied\",\"hash\":\"{}\",\"path\":\"/up/alice/img.raw\",\"status\":\"success\"}}",
        hash
    );
    assert_eq!(event, expected);

    let again = plan_upload(&store, &data, "/up", &meta("bob", "other.raw"));
    match again {
        UploadPlan::Duplicate { hash: h } => assert_eq!(h, hash),
        UploadPlan::Store { .. } => panic!("second upload of the same bytes planned a write"),
    }
    assert!(complete_upload(&mut store, &hash, &m, &target).is_none());
    assert_eq!(store.upload_records().len(), 1);
    assert_eq!(store.upload_records()[0].filename, "img.raw");
    assert_eq!(store.upload_records()[0].size, None);
}

#[test]
fn different_bytes_are_both_stored() {
    let mut store = MetadataStore::new();
    let m = meta("u", "a");
    for data in [b"one".to_vec(), b"two".to_vec()] {
        match plan_upload(&store, &data, "d", &m) {
            UploadPlan::Store { hash, target } => {
                assert!(record_stored_file(&mut store, &hash, &m.filename, &target, "t".to_string()).is_some());
            }
            UploadPlan::Duplicate { .. } => panic!("distinct payload seen as duplicate"),
        }
    }
    assert_eq!(store.upload_records().len(), 2);
}

#[test]
fn planned_path_follows_modification_month() {
    let store = MetadataStore::new();
    let m = UploadMeta {
        username: "alice".to_string(),
        filename: "img.jpg".to_string(),
        modified_at: Some(YearMonth { year: 2024, month: 3 }),
    };
    match plan_upload(&store, b"x", "base", &m) {
        UploadPlan::Store { target, .. } => assert_eq!(target.file, "base/alice/2024/03/img.jpg"),
        UploadPlan::Duplicate { .. } => panic!("empty store reported a duplicate"),
    }
}

#[test]
fn upload_meta_defaults() {
    let m = upload_meta(None, None, None, "default", "1234").unwrap();
    assert_eq!(m.username, "default");
    assert_eq!(m.filename, "1234_upload");
    assert_eq!(m.modified_at, None);
}

#[test]
fn upload_meta_reads_given_fields() {
    let m = upload_meta(
        Some("carol".to_string()),
        Some("p.dng".to_string()),
        Some("2021-07-04T12:00:00-03:00".to_string()),
        "default",
        "id",
    )
    .unwrap();
    assert_eq!(m.username, "carol");
    assert_eq!(m.filename, "p.dng");
    assert_eq!(m.modified_at, Some(YearMonth { year: 2021, month: 7 }));
}

#[test]
fn malformed_timestamp_is_rejected() {
    let r = upload_meta(None, None, Some("not a date".to_string()), "default", "id");
    assert_eq!(r.unwrap_err(), UploadError::InvalidTimestamp);
}

#[test]
fn raw_upload_names_missing_file_after_uuid() {
    let m = raw_upload_meta(None, None, None).unwrap();
    assert_eq!(m.username, "default");
    assert!(m.filename.ends_with("_upload"));
    assert_eq!(m.filename.len(), 36 + "_upload".len());
}

#[test]
fn form_upload_default_user() {
    let m = form_upload_meta(None, Some("x.jpg".to_string()), None).unwrap();
    assert_eq!(m.username, "bruno");
    assert_eq!(m.filename, "x.jpg");
}

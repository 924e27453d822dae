use cube_server::store::MetadataStore;
use cube_server::thumbs::{
    commit_thumbnails, commit_thumbnails_at, list_photos, prepare_thumbnails, thumbnail_path, thumbnail_url,
    ThumbPayload,
};

fn item(hash: &str, name: &str, size: &str, b64: &str) -> ThumbPayload {
    ThumbPayload {
        id: hash.to_string(),
        name: name.to_string(),
        size: size.to_string(),
        hash: hash.to_string(),
        status: "pending".to_string(),
        thumb_base64: b64.to_string(),
        modified_at: None,
    }
}

#[test]
fn thumbnail_locations() {
    assert_eq!(thumbnail_path("abc"), ".thumbs/abc.jpg");
    assert_eq!(thumbnail_url("abc"), "/thumbs/abc.jpg");
}

#[test]
fn batch_decodes_and_skips_bad_payloads() {
    let items = vec![item("h1", "a.jpg", "10", "aGVsbG8="), item("h2", "b.jpg", "20", "%%%"), item("h3", "c.jpg", "30", "")];
    let files = prepare_thumbnails(&items);
    assert_eq!(files.len(), 2);
    assert_eq!(files[0].hash, "h1");
    assert_eq!(files[0].path, ".thumbs/h1.jpg");
    assert_eq!(files[0].bytes, b"hello".to_vec());
    assert_eq!(files[1].hash, "h3");
    assert!(files[1].bytes.is_empty());
}

#[test]
fn later_batch_renames_record() {
    let mut store = MetadataStore::new();
    let first = prepare_thumbnails(&vec![item("H", "a.jpg", "100", "AAAA")]);
    commit_thumbnails_at(&mut store, &first, &"t1".to_string());
    let second = prepare_thumbnails(&vec![item("H", "b.jpg", "200", "AAAA")]);
    commit_thumbnails_at(&mut store, &second, &"t2".to_string());
    let records = store.upload_records();
    assert_eq!(records.len(), 1);
    assert_eq!(records[0].hash, "H");
    assert_eq!(records[0].filename, "b.jpg");
    assert_eq!(records[0].size, Some("200".to_string()));
    assert_eq!(records[0].created_at, "t1");
}

#[test]
fn only_written_thumbnails_are_recorded() {
    let mut store = MetadataStore::new();
    let files = prepare_thumbnails(&vec![item("A", "a.jpg", "1", "AAAA"), item("B", "b.jpg", "2", "AAAA")]);
    let written = vec![files[1].clone()];
    commit_thumbnails(&mut store, &written);
    assert_eq!(store.upload_records().len(), 1);
    assert_eq!(store.upload_records()[0].hash, "B");
}

#[test]
fn listing_omits_missing_thumbnail_files() {
    let mut store = MetadataStore::new();
    let files = prepare_thumbnails(&vec![item("H", "a.jpg", "5", "AAAA"), item("K", "k.jpg", "7", "AAAA")]);
    commit_thumbnails_at(&mut store, &files, &"t".to_string());
    let listed = list_photos(&store, &vec!["K".to_string()]);
    assert_eq!(listed.len(), 1);
    assert_eq!(listed[0].id, "K");
    assert_eq!(listed[0].url, "/thumbs/K.jpg");
    assert_eq!(listed[0].name, "k.jpg");
    assert_eq!(listed[0].size, "7");
    assert_eq!(listed[0].status, "uploading");
    assert!(list_photos(&store, &vec![]).is_empty());
}

#[test]
fn listing_shows_records_without_size() {
    let mut store = MetadataStore::new();
    let record = cube_server::store::UploadRecord {
        hash: "R".to_string(),
        filename: "r.raw".to_string(),
        size: None,
        created_at: "t".to_string(),
    };
    assert!(store.record_upload(record));
    let listed = list_photos(&store, &vec!["R".to_string()]);
    assert_eq!(listed.len(), 1);
    assert_eq!(listed[0].id, "R");
    assert_eq!(listed[0].name, "r.raw");
    assert_eq!(listed[0].size, "");
    assert!(list_photos(&store, &vec![]).is_empty());
}

#[test]
fn empty_batch_changes_nothing() {
    let mut store = MetadataStore::new();
    let files = prepare_thumbnails(&vec![]);
    assert!(files.is_empty());
    commit_thumbnails(&mut store, &files);
    assert!(store.upload_records().is_empty());
}

use cube_server::store::{AuthCode, MetadataStore, TokenRecord, UploadRecord};

fn upload(hash: &str, name: &str) -> UploadRecord {
    UploadRecord { hash: hash.to_string(), filename: name.to_string(), size: None, created_at: "t".to_string() }
}

fn code(code: &str, ip: &str) -> AuthCode {
    AuthCode { code: code.to_string(), ip: ip.to_string(), created_at: "t".to_string() }
}

#[test]
fn restore_keeps_first_upload_and_last_code() {
    let uploads = vec![upload("a", "first"), upload("b", "b"), upload("a", "second")];
    let tokens = vec![TokenRecord {
        token: "tok".to_string(),
        username: "bob".to_string(),
        ip: "1.2.3.4".to_string(),
        created_at: "t".to_string(),
    }];
    let codes = vec![code("C1", "1.1.1.1"), code("C1", "2.2.2.2")];
    let store = MetadataStore::restore(&uploads, &tokens, &codes);
    assert_eq!(store.upload_records().len(), 2);
    assert_eq!(store.upload_records()[0].filename, "first");
    assert_eq!(store.token_records().len(), 1);
    assert!(store.has_token(&"tok".to_string()));
    assert_eq!(store.code_records().len(), 1);
    assert_eq!(store.code_address(&"C1".to_string()), Some("2.2.2.2".to_string()));
}

#[test]
fn restore_of_nothing_is_empty() {
    let store = MetadataStore::restore(&vec![], &vec![], &vec![]);
    assert!(store.upload_records().is_empty());
    assert!(store.token_records().is_empty());
    assert!(store.code_records().is_empty());
}

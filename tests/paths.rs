use cube_server::digest::compute_hash;
use cube_server::paths::{get_output_path, parse_modified_at, YearMonth};

#[test]
fn hash_of_hello_world() {
    assert_eq!(
        compute_hash(b"hello world"),
        "b94d27b9934d3e08a52e52d7da7dabfac484efe37a5380ee9088f7ace2efcde9"
    );
}

#[test]
fn hash_of_empty_payload() {
    assert_eq!(
        compute_hash(b""),
        "e3b0c44298fc1c149afbf4c8996fb92427ae41e4649b934ca495991b7852b855"
    );
}

#[test]
fn path_without_timestamp() {
    let p = get_output_path("base", "alice", "img.jpg", None);
    assert_eq!(p.dir, "base/alice");
    assert_eq!(p.file, "base/alice/img.jpg");
}

#[test]
fn path_with_timestamp() {
    let month = parse_modified_at("2024-03-15T10:20:30Z");
    assert_eq!(month, Some(YearMonth { year: 2024, month: 3 }));
    let p = get_output_path("base", "alice", "img.jpg", month);
    assert_eq!(p.dir, "base/alice/2024/03");
    assert_eq!(p.file, "base/alice/2024/03/img.jpg");
}

#[test]
fn two_digit_month_is_not_padded() {
    let p = get_output_path("/data", "bob", "a.raw", Some(YearMonth { year: 2023, month: 12 }));
    assert_eq!(p.file, "/data/bob/2023/12/a.raw");
}

#[test]
fn timestamp_month_is_taken_in_utc() {
    assert_eq!(
        parse_modified_at("2024-03-01T00:30:00+05:00"),
        Some(YearMonth { year: 2024, month: 2 })
    );
}

#[test]
fn negative_year_is_written_with_sign() {
    let month = parse_modified_at("0000-01-01T00:00:00+01:00");
    assert_eq!(month, Some(YearMonth { year: -1, month: 12 }));
    let p = get_output_path("b", "u", "f", month);
    assert_eq!(p.file, "b/u/-1/12/f");
}

#[test]
fn malformed_timestamp_reads_as_none() {
    assert_eq!(parse_modified_at("yesterday"), None);
    assert_eq!(parse_modified_at("2024-03-15T10:20:30.000"), None);
}

#[test]
fn hash_is_lowercase_hex() {
    let h = compute_hash(b"\x00\xff some bytes");
    assert_eq!(h.len(), 64);
    assert!(h.chars().all(|c| c.is_ascii_digit() || ('a'..='f').contains(&c)));
}

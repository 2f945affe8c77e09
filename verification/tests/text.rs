use tellur_storage::csv::split_csv;
use tellur_storage::digest::{advisory_key, hash_content, to_hex_lower};
use tellur_storage::schema::column_present;

#[test]
fn split_csv_sorts_and_dedups() {
    assert_eq!(
        split_csv(Some("b,a,,b,c".to_string())),
        vec!["a".to_string(), "b".to_string(), "c".to_string()]
    );
}

#[test]
fn split_csv_of_nothing_is_empty() {
    assert!(split_csv(None).is_empty());
    assert!(split_csv(Some(String::new())).is_empty());
    assert!(split_csv(Some(",,,".to_string())).is_empty());
}

#[test]
fn split_csv_single_field() {
    assert_eq!(split_csv(Some("agent-1".to_string())), vec!["agent-1".to_string()]);
    assert_eq!(split_csv(Some(",x,".to_string())), vec!["x".to_string()]);
}

#[test]
fn split_csv_orders_like_string_ord() {
    let mut expected = vec!["é".to_string(), "e".to_string(), "Z".to_string(), "ab".to_string(), "a".to_string()];
    expected.sort();
    assert_eq!(split_csv(Some("é,e,Z,ab,a".to_string())), expected);
}

#[test]
fn hex_encoding_is_lower_case() {
    assert_eq!(to_hex_lower(&vec![0xbe, 0xef, 0x00, 0x0a]), "beef000a");
    assert_eq!(to_hex_lower(&vec![]), "");
}

#[test]
fn content_hash_is_sha256_hex() {
    assert_eq!(
        hash_content("hello world"),
        "b94d27b9934d3e08a52e52d7da7dabfac484efe37a5380ee9088f7ace2efcde9"
    );
    assert_eq!(hash_content("").len(), 64);
}

#[test]
fn advisory_key_is_sha256_prefix() {
    assert_eq!(advisory_key("audit"), -5179359884983470233);
    assert_eq!(advisory_key("repo:abc"), -2323912946663472876);
    assert_ne!(advisory_key("audit"), advisory_key("audit "));
}

#[test]
fn column_presence() {
    let cols = vec!["id".to_string(), "org_id".to_string(), "active".to_string()];
    assert!(column_present(&cols, "active"));
    assert!(!column_present(&cols, "external_id"));
    assert!(!column_present(&vec![], "id"));
}

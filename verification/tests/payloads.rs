use wrangler_kv::dispatch::{delete_bulk_plan, plan_delete_key, plan_write_bulk, write_bulk_plan, BulkWriteParams};
use wrangler_kv::errors::KvError;
use wrangler_kv::json::{parse_delete_keys, parse_write_entries};
use wrangler_kv::loader::{load_write_entries, DeleteSource, WriteSource};

#[test]
fn write_payload_parses_in_order_and_content() {
    let text = r#"[{"key":"a","value":"1"},{"key":"b","value":"2","base64":true},{"value":"3","key":"c"}]"#;
    let entries = parse_write_entries(text).unwrap();
    assert_eq!(entries.len(), 3);
    assert_eq!(entries[0].key, "a");
    assert_eq!(entries[0].value, "1");
    assert!(!entries[0].base64);
    assert_eq!(entries[1].key, "b");
    assert_eq!(entries[1].value, "2");
    assert!(entries[1].base64);
    assert_eq!(entries[2].key, "c");
    assert_eq!(entries[2].value, "3");
    assert!(!entries[2].base64);
}

#[test]
fn write_payload_agrees_with_a_reference_parser() {
    let text = " [ {\"key\" : \"k one\", \"value\" : \"v\\none\"} , {\"key\":\"k2\",\"value\":\"\\u0041\\uD83D\\uDE00\"} ] ";
    let entries = parse_write_entries(text).unwrap();
    let reference: serde_json::Value = serde_json::from_str(text).unwrap();
    let array = reference.as_array().unwrap();
    assert_eq!(entries.len(), array.len());
    for (entry, value) in entries.iter().zip(array.iter()) {
        assert_eq!(entry.key, value.get("key").unwrap().as_str().unwrap());
        assert_eq!(entry.value, value.get("value").unwrap().as_str().unwrap());
    }
    assert_eq!(entries[1].value, "A\u{1F600}");
}

#[test]
fn empty_write_payload_is_accepted() {
    let entries = parse_write_entries("  [ ]  ").unwrap();
    assert!(entries.is_empty());
}

#[test]
fn malformed_write_payloads_are_format_errors() {
    let bad = [
        "",
        "[",
        "[{}]",
        r#"[{"key":"a"}]"#,
        r#"[{"value":"a"}]"#,
        r#"[{"key":"a","value":"b","key":"c"}]"#,
        r#"[{"key":"a","value":2}]"#,
        r#"[{"key":"a","value":"b","base64":"yes"}]"#,
        r#"[{"key":"a","value":"b"}] trailing"#,
        r#"[{"key":"a","value":"b"},]"#,
        r#"{"key":"a","value":"b"}"#,
        "[\"\u{0007}\"]",
        r#"["\uD800"]"#,
    ];
    for text in bad.iter() {
        let r = parse_write_entries(text);
        assert!(matches!(r, Err(KvError::JsonFormatError)), "accepted: {}", text);
    }
}

#[test]
fn string_escapes_are_decoded() {
    let text = r#"[{"key":"\"q\"\\\/","value":"\b\f\n\r\té"}]"#;
    let entries = parse_write_entries(text).unwrap();
    assert_eq!(entries[0].key, "\"q\"\\/");
    assert_eq!(entries[0].value, "\u{8}\u{c}\n\r\t\u{e9}");
}

#[test]
fn delete_payload_parses_keys_in_order() {
    let keys = parse_delete_keys(r#"["a","b/c"]"#).unwrap();
    assert_eq!(keys, vec!["a".to_string(), "b/c".to_string()]);
}

#[test]
fn delete_payload_rejects_non_strings() {
    assert!(matches!(parse_delete_keys("[1]"), Err(KvError::JsonFormatError)));
    assert!(matches!(parse_delete_keys(r#"["a",]"#), Err(KvError::JsonFormatError)));
}

#[test]
fn bulk_delete_plan_carries_the_exact_key_list() {
    let source = DeleteSource::JsonText(r#"["a","b/c"]"#.to_string());
    let req = delete_bulk_plan("acct".to_string(), "ns".to_string(), &source).unwrap();
    assert_eq!(req.account_id, "acct");
    assert_eq!(req.namespace_id, "ns");
    assert_eq!(req.keys, vec!["a".to_string(), "b/c".to_string()]);
}

#[test]
fn symlink_input_is_an_input_kind_error_before_any_request() {
    let source = WriteSource::Unsupported("some/link".to_string());
    let r = load_write_entries(&source);
    match r {
        Err(KvError::InputKindError(p)) => assert_eq!(p, "some/link"),
        _ => panic!("expected an input-kind error"),
    }
    let source = DeleteSource::Unsupported("other/link".to_string());
    let r = delete_bulk_plan("acct".to_string(), "ns".to_string(), &source);
    assert!(matches!(r, Err(KvError::InputKindError(_))));
}

#[test]
fn missing_input_is_an_io_error() {
    let source = WriteSource::Inaccessible("no such file".to_string());
    let r = write_bulk_plan(
        "acct".to_string(),
        "ns".to_string(),
        &source,
        BulkWriteParams { expiration: None, expiration_ttl: None },
    );
    match r {
        Err(KvError::IoError(m)) => assert_eq!(m, "no such file"),
        _ => panic!("expected an io error"),
    }
}

#[test]
fn short_ttl_passes_through_without_local_validation() {
    let params = BulkWriteParams { expiration: Some(1700000000), expiration_ttl: Some(30) };
    let req = plan_write_bulk("acct".to_string(), "ns".to_string(), Vec::new(), params);
    assert_eq!(req.params.expiration_ttl, Some(30));
    assert_eq!(req.params.expiration, Some(1700000000));
}

#[test]
fn write_bulk_plan_keeps_entries_and_metadata_together() {
    let source = WriteSource::JsonText(r#"[{"key":"a","value":"b"}]"#.to_string());
    let params = BulkWriteParams { expiration: None, expiration_ttl: Some(59) };
    let req = write_bulk_plan("acct".to_string(), "ns".to_string(), &source, params).unwrap();
    assert_eq!(req.pairs.len(), 1);
    assert_eq!(req.pairs[0].key, "a");
    assert_eq!(req.pairs[0].value, "b");
    assert_eq!(req.params.expiration_ttl, Some(59));
}

#[test]
fn single_key_delete_plan_carries_the_key() {
    let req = plan_delete_key("acct".to_string(), "ns".to_string(), "the%2Fkey".to_string());
    assert_eq!(req.account_id, "acct");
    assert_eq!(req.namespace_id, "ns");
    assert_eq!(req.key, "the%2Fkey");
}

#[test]
fn bad_json_from_a_file_aborts_a_write_plan() {
    let source = WriteSource::JsonText("not json".to_string());
    let r = write_bulk_plan(
        "acct".to_string(),
        "ns".to_string(),
        &source,
        BulkWriteParams { expiration: None, expiration_ttl: None },
    );
    assert!(matches!(r, Err(KvError::JsonFormatError)));
}

use nanodb::http::http_delete;
use nanodb::http::http_flush;
use nanodb::http::http_get;
use nanodb::http::http_keys;
use nanodb::http::http_set;
use nanodb::DbResult;
use nanodb::NanoDb;

#[test]
fn http_set_decodes_base64_before_storing() {
    let mut db = NanoDb::new();
    let outcome = http_set(&mut db, "greeting".to_string(), "aGVsbG8=");
    assert!(outcome.success);
    assert!(outcome.message.is_none());

    let result = db.get("greeting");
    assert!(matches!(result, DbResult::Success(ref data) if data == b"hello"));
}

#[test]
fn http_set_rejects_invalid_base64() {
    let mut db = NanoDb::new();
    let outcome = http_set(&mut db, "k".to_string(), "!!! not base64 !!!");
    assert!(!outcome.success);
    assert_eq!(outcome.message, Some("Invalid Base64".to_string()));

    assert!(matches!(db.get("k"), DbResult::NotFound));
}

#[test]
fn http_get_encodes_value_as_base64() {
    let mut db = NanoDb::new();
    db.set("greeting".to_string(), b"hello".to_vec());

    let result = http_get(&db, "greeting");
    assert!(matches!(result, DbResult::Success(ref s) if s == "aGVsbG8="));
}

#[test]
fn http_get_missing_key_is_not_found() {
    let db = NanoDb::new();
    assert!(matches!(http_get(&db, "missing"), DbResult::NotFound));
}

#[test]
fn http_delete_and_flush_succeed() {
    let mut db = NanoDb::new();
    db.set("a".to_string(), b"1".to_vec());
    db.set("b".to_string(), b"2".to_vec());

    let outcome = http_delete(&mut db, "a");
    assert!(outcome.success);
    assert!(matches!(db.get("a"), DbResult::NotFound));

    let outcome = http_flush(&mut db);
    assert!(outcome.success);
    assert_eq!(http_keys(&db).len(), 0);
}

#[test]
fn http_keys_lists_stored_keys() {
    let mut db = NanoDb::new();
    db.set("a".to_string(), b"1".to_vec());
    db.set("b".to_string(), b"2".to_vec());

    let keys = http_keys(&db);
    assert_eq!(keys.len(), 2);
    assert!(keys.contains(&"a".to_string()));
    assert!(keys.contains(&"b".to_string()));
}

#[test]
fn http_round_trip_preserves_base64_text() {
    let mut db = NanoDb::new();
    http_set(&mut db, "k".to_string(), "d29ybGQ=");
    let result = http_get(&db, "k");
    assert!(matches!(result, DbResult::Success(ref s) if s == "d29ybGQ="));
}

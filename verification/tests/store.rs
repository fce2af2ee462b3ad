use std::sync::Arc;
use std::sync::Mutex;

use nanodb::DbResult;
use nanodb::NanoDb;

#[test]
fn test_set_and_get() {
    let mut db = NanoDb::new();

    let result = db.set("test_key".to_string(), b"test_value".to_vec());
    assert!(matches!(result, DbResult::Success(())));

    let result = db.get("test_key");
    assert!(matches!(result, DbResult::Success(ref data) if data == b"test_value"));
}

#[test]
fn test_get_nonexistent() {
    let db = NanoDb::new();

    let result = db.get("nonexistent");
    assert!(matches!(result, DbResult::NotFound));
}

#[test]
fn test_delete() {
    let mut db = NanoDb::new();

    db.set("delete_me".to_string(), b"value".to_vec());

    let result = db.delete("delete_me");
    assert!(matches!(result, DbResult::Success(())));

    let result = db.get("delete_me");
    assert!(matches!(result, DbResult::NotFound));
}

#[test]
fn test_keys() {
    let mut db = NanoDb::new();

    db.set("key1".to_string(), b"value1".to_vec());
    db.set("key2".to_string(), b"value2".to_vec());

    let result = db.keys();
    if let DbResult::Success(keys) = result {
        assert_eq!(keys.len(), 2);
        assert!(keys.contains(&"key1".to_string()));
        assert!(keys.contains(&"key2".to_string()));
    } else {
        panic!("Expected Ok with keys");
    }
}

#[test]
fn test_clear() {
    let mut db = NanoDb::new();

    db.set("key1".to_string(), b"value1".to_vec());
    db.set("key2".to_string(), b"value2".to_vec());

    let result = db.clear();
    assert!(matches!(result, DbResult::Success(())));

    let result = db.keys();
    if let DbResult::Success(keys) = result {
        assert_eq!(keys.len(), 0);
    } else {
        panic!("Expected Ok with empty keys");
    }
}

#[test]
fn test_exists() {
    let mut db = NanoDb::new();

    let result = db.has_key("nonexistent");
    assert!(matches!(result, DbResult::Success(false)));

    db.set("existing".to_string(), b"value".to_vec());

    let result = db.has_key("existing");
    assert!(matches!(result, DbResult::Success(true)));
}

#[test]
fn test_concurrent_access() {
    let runtime = tokio::runtime::Runtime::new().unwrap();
    runtime.block_on(async {
        let db = Arc::new(Mutex::new(NanoDb::new()));
        let mut handles = vec![];

        for i in 0..10 {
            let db_clone = db.clone();
            let handle = tokio::spawn(async move {
                let key = format!("key_{}", i);
                let value = format!("value_{}", i).into_bytes();

                db_clone.lock().unwrap().set(key.clone(), value.clone());

                let result = db_clone.lock().unwrap().get(&key);
                matches!(result, DbResult::Success(ref data) if data == &value)
            });
            handles.push(handle);
        }

        for handle in handles {
            let success = handle.await.unwrap();
            assert!(success);
        }

        let result = db.lock().unwrap().keys();
        if let DbResult::Success(keys) = result {
            assert_eq!(keys.len(), 10);
        }
    });
}

#[test]
fn overwrite_replaces_value() {
    let mut db = NanoDb::new();
    db.set("k".to_string(), b"first".to_vec());
    db.set("k".to_string(), b"second".to_vec());
    let result = db.get("k");
    assert!(matches!(result, DbResult::Success(ref data) if data == b"second"));
}

#[test]
fn delete_missing_key_still_succeeds() {
    let mut db = NanoDb::new();
    let result = db.delete("never_there");
    assert!(matches!(result, DbResult::Success(())));
}

#[test]
fn disjoint_sets_both_observable() {
    let mut db = NanoDb::new();
    db.set("a".to_string(), b"1".to_vec());
    db.set("b".to_string(), b"2".to_vec());
    assert!(matches!(db.get("a"), DbResult::Success(ref data) if data == b"1"));
    assert!(matches!(db.get("b"), DbResult::Success(ref data) if data == b"2"));
}

use wrap_rocks::DbError;
use wrap_rocks::RocksDB;

#[test]
fn open_defaults_to_zstd_then_put_get_delete() {
    let mut db = RocksDB::new("/tmp/db1", None);
    assert!(!db.uses_snappy());
    assert!(db.is_wal_enabled());
    assert_eq!(db.dir_path(), "/tmp/db1");
    db.put("a".to_string(), "1".to_string());
    assert_eq!(db.get("a".to_string()), Ok(Some("1".to_string())));
    assert!(db.delete("a".to_string()));
    assert_eq!(db.get("a".to_string()), Ok(None));
}

#[test]
fn open_recognises_snappy_by_exact_name() {
    let db = RocksDB::new("/tmp/db2", Some("snappy"));
    assert!(db.uses_snappy());
    let other = RocksDB::new("/tmp/db3", Some("Snappy"));
    assert!(!other.uses_snappy());
    let zlib = RocksDB::new("/tmp/db4", Some("zlib"));
    assert!(!zlib.uses_snappy());
}

#[test]
fn put_then_get_round_trips_exactly() {
    let mut db = RocksDB::new("/tmp/db5", None);
    db.put("key".to_string(), "value with spaces and \u{00e9}".to_string());
    assert_eq!(
        db.get("key".to_string()),
        Ok(Some("value with spaces and \u{00e9}".to_string()))
    );
}

#[test]
fn put_overwrites_previous_value() {
    let mut db = RocksDB::new("/tmp/db6", None);
    db.put("k".to_string(), "first".to_string());
    db.put("k".to_string(), "second".to_string());
    assert_eq!(db.get("k".to_string()), Ok(Some("second".to_string())));
}

#[test]
fn unwritten_key_is_absent() {
    let db = RocksDB::new("/tmp/db7", None);
    assert_eq!(db.get("never".to_string()), Ok(None));
    assert_eq!(db.get_bytes("never".to_string()), None);
}

#[test]
fn delete_absent_key_reports_success() {
    let mut db = RocksDB::new("/tmp/db8", None);
    assert!(db.delete("ghost".to_string()));
    assert_eq!(db.get("ghost".to_string()), Ok(None));
}

#[test]
fn delete_present_key_then_get_is_absent() {
    let mut db = RocksDB::new("/tmp/db9", None);
    db.put("k".to_string(), "v".to_string());
    assert!(db.delete("k".to_string()));
    assert_eq!(db.get("k".to_string()), Ok(None));
}

#[test]
fn bytes_round_trip_exactly() {
    let mut db = RocksDB::new("/tmp/db10", None);
    let payload: Vec<u8> = vec![0, 1, 2, 255, 254, 7];
    db.put_bytes("blob".to_string(), payload.as_slice());
    assert_eq!(db.get_bytes("blob".to_string()), Some(payload));
}

#[test]
fn text_and_bytes_share_one_keyspace() {
    let mut db = RocksDB::new("/tmp/db11", None);
    db.put_bytes("k".to_string(), "text".as_bytes());
    assert_eq!(db.get("k".to_string()), Ok(Some("text".to_string())));
}

#[test]
fn get_reports_invalid_utf8() {
    let mut db = RocksDB::new("/tmp/db12", None);
    db.put_bytes("raw".to_string(), &[0xff, 0xfe]);
    assert_eq!(db.get("raw".to_string()), Err(DbError::InvalidUtf8));
    assert_eq!(db.get_bytes("raw".to_string()), Some(vec![0xff, 0xfe]));
}

#[test]
fn batch_put_returns_count_and_batch_get_preserves_order() {
    let mut db = RocksDB::new("/tmp/db13", None);
    let pairs = vec![
        ("x".to_string(), "1".to_string()),
        ("y".to_string(), "2".to_string()),
    ];
    assert_eq!(db.batch_put(pairs), 2);
    let got = db.batch_get(vec!["x".to_string(), "y".to_string(), "z".to_string()]);
    assert_eq!(got, vec!["1".to_string(), "2".to_string(), String::new()]);
}

#[test]
fn batch_put_empty_returns_zero_and_changes_nothing() {
    let mut db = RocksDB::new("/tmp/db14", None);
    db.put("kept".to_string(), "v".to_string());
    assert_eq!(db.batch_put(Vec::new()), 0);
    assert_eq!(db.get("kept".to_string()), Ok(Some("v".to_string())));
}

#[test]
fn batch_put_last_pair_wins_on_duplicate_key() {
    let mut db = RocksDB::new("/tmp/db15", None);
    let pairs = vec![
        ("k".to_string(), "old".to_string()),
        ("k".to_string(), "new".to_string()),
    ];
    assert_eq!(db.batch_put(pairs), 2);
    assert_eq!(db.get("k".to_string()), Ok(Some("new".to_string())));
}

#[test]
fn batch_get_length_always_matches_input() {
    let mut db = RocksDB::new("/tmp/db16", None);
    db.put("only".to_string(), "v".to_string());
    let keys = vec![
        "a".to_string(),
        "only".to_string(),
        "b".to_string(),
        "only".to_string(),
    ];
    let got = db.batch_get(keys);
    assert_eq!(got.len(), 4);
    assert_eq!(got[1], "v");
    assert_eq!(got[3], "v");
    assert_eq!(got[0], "");
    assert_eq!(got[2], "");
}

#[test]
fn batch_get_marks_undecodable_values() {
    let mut db = RocksDB::new("/tmp/db17", None);
    db.put_bytes("bad".to_string(), &[0x80]);
    let got = db.batch_get(vec!["bad".to_string()]);
    assert_eq!(got, vec!["error".to_string()]);
}

#[test]
fn wal_toggle_keeps_committed_data() {
    let mut db = RocksDB::new("/tmp/db18", None);
    db.put("before".to_string(), "1".to_string());
    db.disable_wal();
    assert!(!db.is_wal_enabled());
    assert_eq!(db.get("before".to_string()), Ok(Some("1".to_string())));
    db.put("during".to_string(), "2".to_string());
    db.enable_wal();
    assert!(db.is_wal_enabled());
    assert_eq!(db.get("before".to_string()), Ok(Some("1".to_string())));
    assert_eq!(db.get("during".to_string()), Ok(Some("2".to_string())));
}

#[test]
fn flush_succeeds_with_and_without_pending_writes() {
    let mut db = RocksDB::new("/tmp/db19", None);
    assert!(db.flush());
    db.disable_wal();
    db.put("k".to_string(), "v".to_string());
    assert!(db.flush());
    assert_eq!(db.get("k".to_string()), Ok(Some("v".to_string())));
}

#[test]
fn reopen_from_saved_log_retains_flushed_data() {
    let mut db = RocksDB::new("/tmp/db21", None);
    db.disable_wal();
    db.put("k".to_string(), "v".to_string());
    assert!(db.flush());
    let saved = db.log_entries().clone();
    drop(db);
    let db2 = RocksDB::recover("/tmp/db21", None, saved);
    assert!(db2.is_wal_enabled());
    assert_eq!(db2.dir_path(), "/tmp/db21");
    assert_eq!(db2.get("k".to_string()), Ok(Some("v".to_string())));
}

#[test]
fn recover_replays_batches_and_deletes_in_order() {
    let mut db = RocksDB::new("/tmp/db22", None);
    let pairs = vec![
        ("x".to_string(), "1".to_string()),
        ("y".to_string(), "2".to_string()),
    ];
    assert_eq!(db.batch_put(pairs), 2);
    assert!(db.delete("x".to_string()));
    assert!(db.flush());
    let saved = db.log_entries().clone();
    drop(db);
    let db2 = RocksDB::recover("/tmp/db22", None, saved);
    assert_eq!(db2.get("x".to_string()), Ok(None));
    assert_eq!(db2.get("y".to_string()), Ok(Some("2".to_string())));
}

#[test]
fn recover_from_empty_log_is_a_fresh_store() {
    let db = RocksDB::recover("/tmp/db23", None, Vec::new());
    assert_eq!(db.get("any".to_string()), Ok(None));
}

#[test]
fn empty_key_and_empty_value_are_ordinary() {
    let mut db = RocksDB::new("/tmp/db20", None);
    db.put(String::new(), String::new());
    assert_eq!(db.get(String::new()), Ok(Some(String::new())));
    let got = db.batch_get(vec![String::new()]);
    assert_eq!(got, vec![String::new()]);
}

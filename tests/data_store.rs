use redis_lite::db::data_store::{init_db, DataUnit, DbConfig, Expiry, ServerRole};

#[test]
fn test_is_expired_no_expiry() {
    let data = DataUnit { key: "key".into(), value: "data value".into(), expiry_deadline: None };

    assert!(!data.is_expired(0), "Data with no expiry should never expire!");
}

#[test]
fn test_is_expired_some_expiry() {
    let now: u64 = 10_000;
    let mut data = DataUnit {
        key: "key".into(),
        value: "data value".into(),
        expiry_deadline: Some(now + 50),
    };
    assert!(!data.is_expired(now), "Data should not expire instantly!");
    data.expiry_deadline = Some(now - 1);
    assert!(data.is_expired(now), "Data should expire after the set durration!");
}

#[test]
fn test_set_get_remove() {
    let now: u64 = 5;
    let mut store = init_db(DbConfig::empty());
    store.set("key".into(), DataUnit::new("key".into(), "value".into(), None, now, 0));

    assert_eq!(vec![b"key".to_vec()], store.get_all_keys(), "DataStore must contain the key after setting it");
    assert_eq!(
        b"value".to_vec(),
        store.get(b"key", now).unwrap().value,
        "DataStore must have the correct value connected to the key"
    );

    store.set("key".into(), DataUnit::new("key".into(), "value2".into(), None, now, 0));
    assert_eq!(
        b"value2".to_vec(),
        store.get(b"key", now).unwrap().value,
        "DataStore must have the overridden value connected to the key"
    );

    store.remove_key(b"key");
    assert!(store.get_all_keys().is_empty(), "DataStore must not contain the key after removing it");
}

#[test]
fn test_set_get_not_expired() {
    let now: u64 = 1_000;
    let mut store = init_db(DbConfig::empty());
    let data = DataUnit::new("key".into(), "value".into(), Some(Expiry::Ttl(10)), now, 0);
    store.set("key".into(), data);

    assert_eq!(b"value".to_vec(), store.get(b"key", now).unwrap().value, "Value should not expire instantly!");
}

#[test]
fn test_set_get_expired_multiple_values() {
    let now: u64 = 1_000;
    let mut store = init_db(DbConfig::empty());
    let mut data = DataUnit::new("key".into(), "value".into(), Some(Expiry::Ttl(10_000)), now, 0);
    // Alter the data object after construction
    data.expiry_deadline = Some(now);
    let data2 = DataUnit::new("key".into(), "value2".into(), Some(Expiry::Ttl(0)), now, 0);

    store.set("key".into(), data);
    store.set("key2".into(), data2);

    assert!(store.get(b"key", now).is_none(), "Value should be expired!");
    assert!(store.get(b"key", now).is_none(), "Value should be expired!");
    assert!(store.get(b"key2", now).is_none(), "Value should be expired!");

    assert!(store.get_all_keys().is_empty());
}

#[test]
fn expiry_deadlines() {
    assert_eq!(1_500, Expiry::Ttl(500).get_expiry_deadline(1_000, 0));
    assert_eq!(1_000, Expiry::Ttl(u64::MAX).get_expiry_deadline(1_000, 0));
    assert_eq!(42, Expiry::Instant(42).get_expiry_deadline(1_000, 0));
    // A wall-clock deadline 300 ms ahead becomes a monotonic one 300 ms ahead.
    assert_eq!(1_300, Expiry::Deadline(9_300).get_expiry_deadline(1_000, 9_000));
    // One already past is due now.
    assert_eq!(1_000, Expiry::Deadline(8_000).get_expiry_deadline(1_000, 9_000));
}

#[test]
fn expired_entry_stays_gone_later() {
    let mut store = init_db(DbConfig::empty());
    store.set("k".into(), DataUnit::new("k".into(), "v".into(), Some(Expiry::Ttl(10)), 100, 0));
    assert!(store.get(b"k", 110).is_none());
    assert!(store.get(b"k", 105).is_none());
    assert!(store.get(b"k", 5_000).is_none());
    assert!(!store.is_live(b"k", 0));
}

#[test]
fn config_values() {
    let config = DbConfig::new(b"/tmp/redis-files".to_vec(), b"dump.rdb".to_vec(), 6380, None);
    assert_eq!(b"/tmp/redis-files/dump.rdb".to_vec(), config.get_full_db_file_path());
    assert_eq!(b"master".to_vec(), config.replication_data.role.name());
    assert_eq!(40, config.replication_data.master_repl_id.len());
    let follower = DbConfig::new(Vec::new(), Vec::new(), 6380, Some((b"localhost".to_vec(), 6379)));
    assert_eq!(b"slave".to_vec(), follower.replication_data.role.name());
    assert_eq!(ServerRole::Slave((b"localhost".to_vec(), 6379)), follower.replication_data.role);
}

#[test]
fn reads_return_the_latest_write_of_the_same_key() {
    let mut store = init_db(DbConfig::empty());
    assert!(store.get(b"k", 0).is_none());
    store.set("k".into(), DataUnit::new("k".into(), "1".into(), None, 0, 0));
    store.set("other".into(), DataUnit::new("other".into(), "x".into(), None, 0, 0));
    assert_eq!(b"1".to_vec(), store.get(b"k", 1).unwrap().value);
    store.set("k".into(), DataUnit::new("k".into(), "2".into(), None, 0, 0));
    assert_eq!(b"2".to_vec(), store.get(b"k", 2).unwrap().value);
    assert_eq!(b"x".to_vec(), store.get(b"other", 2).unwrap().value);
    store.remove_key(b"k");
    assert!(store.get(b"k", 3).is_none());
}

use online::store::OnlineStore;

#[test]
fn first_upsert_creates_the_record() {
    let mut store = OnlineStore::new();
    let rec = store.upsert_online("dev-1", "tok-1", true, 100);
    assert_eq!(rec._id, "0");
    assert_eq!(rec.uuid, "dev-1");
    assert_eq!(rec.apiToken, "tok-1");
    assert_eq!(rec.createdAt, "100");
    assert_eq!(rec.modifiedAt, "100");
    assert!(rec.online);
    assert_eq!(store.record_count(), 1);
}

#[test]
fn second_upsert_updates_in_place() {
    let mut store = OnlineStore::new();
    store.upsert_online("dev-1", "tok-1", true, 100);
    let rec = store.upsert_online("dev-1", "tok-1", true, 250);
    assert_eq!(rec._id, "0");
    assert_eq!(rec.createdAt, "100");
    assert_eq!(rec.modifiedAt, "250");
    assert!(rec.online);
    assert_eq!(store.record_count(), 1);
}

#[test]
fn round_trip_online_then_offline() {
    let mut store = OnlineStore::new();
    store.upsert_online("dev-1", "tok-1", true, 100);
    store.upsert_online("dev-1", "tok-1", false, 200);
    let rec = store.find_online("dev-1", "tok-1").unwrap();
    assert_eq!(rec._id, "0");
    assert_eq!(rec.createdAt, "100");
    assert_eq!(rec.modifiedAt, "200");
    assert!(!rec.online);
    assert_eq!(store.record_count(), 1);
}

#[test]
fn distinct_keys_get_distinct_records() {
    let mut store = OnlineStore::new();
    store.upsert_online("dev-1", "tok-1", true, 100);
    store.upsert_online("dev-1", "tok-2", true, 110);
    store.upsert_online("dev-2", "tok-1", true, 120);
    assert_eq!(store.record_count(), 3);
    let a = store.find_online("dev-1", "tok-2").unwrap();
    assert_eq!(a._id, "1");
    assert!(a.online);
    assert_eq!(a.createdAt, "110");
}

#[test]
fn find_misses_absent_keys() {
    let mut store = OnlineStore::new();
    assert!(store.find_online("dev-1", "tok-1").is_none());
    store.upsert_online("dev-1", "tok-1", true, 100);
    assert!(store.find_online("dev-1", "tok-2").is_none());
    assert!(store.find_online("dev-2", "tok-1").is_none());
}

#[test]
fn large_timestamps_render_in_decimal() {
    let mut store = OnlineStore::new();
    let rec = store.upsert_online("d", "t", true, 1700000000123);
    assert_eq!(rec.createdAt, "1700000000123");
    assert_eq!(rec.modifiedAt, "1700000000123");
}

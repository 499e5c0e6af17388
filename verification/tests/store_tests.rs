use ipsweep::store::{CheckpointStore, StoreError};

fn fresh() -> CheckpointStore {
    CheckpointStore::open(":memory:").expect("in-memory store")
}

#[test]
fn fresh_store_loads_zero() {
    let store = fresh();
    assert_eq!(store.load().unwrap(), 0);
}

#[test]
fn commit_then_load_reads_the_address_back() {
    let mut store = fresh();
    store.commit(5).unwrap();
    assert_eq!(store.load().unwrap(), 5);
}

#[test]
fn commit_twice_is_idempotent() {
    // Committing the same address twice leaves the checkpoint at that
    // address: neither doubled nor incremented.
    let mut store = fresh();
    store.commit(7).unwrap();
    store.commit(7).unwrap();
    assert_eq!(store.load().unwrap(), 7);
}

#[test]
fn load_returns_maximum_regardless_of_commit_order() {
    let mut store = fresh();
    store.commit(5).unwrap();
    store.commit(9).unwrap();
    store.commit(3).unwrap();
    assert_eq!(store.load().unwrap(), 9);
}

#[test]
fn load_orders_numerically_not_lexically() {
    // In decimal string form '9' sorts after '10'; the checkpoint must not.
    let mut store = fresh();
    store.commit(9).unwrap();
    store.commit(10).unwrap();
    assert_eq!(store.load().unwrap(), 10);
}

#[test]
fn checkpoints_are_monotone_across_commits() {
    let mut store = fresh();
    let mut last = store.load().unwrap();
    for a in [4u32, 4, 6, 2, 9, 9, 11] {
        store.commit(a).unwrap();
        let now = store.load().unwrap();
        assert!(now >= last);
        last = now;
    }
    assert_eq!(last, 11);
}

#[test]
fn large_addresses_survive_the_round_trip() {
    let mut store = fresh();
    store.commit(4294967295).unwrap();
    assert_eq!(store.load().unwrap(), 4294967295);
}

#[test]
fn reachable_records_are_kept_apart_from_checkpoints() {
    let mut store = fresh();
    store.record_reachable(42).unwrap();
    assert!(store.is_reachable_recorded(42).unwrap());
    assert!(!store.is_reachable_recorded(43).unwrap());
    // Results do not move the checkpoint.
    assert_eq!(store.load().unwrap(), 0);
    // Recording twice stores one fact, not two errors.
    store.record_reachable(42).unwrap();
    assert!(store.is_reachable_recorded(42).unwrap());
}

#[test]
fn unopenable_path_is_a_backend_error() {
    let r = CheckpointStore::open("/nonexistent-directory-for-sweep/valid_ips.db");
    assert!(matches!(r, Err(StoreError::Backend(_))));
}

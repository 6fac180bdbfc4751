use trale::result::{MultishotResult, MultishotStore, OneshotStore, RingResults};

#[test]
fn oneshot_set_then_get_frees_slot() {
    let mut store = OneshotStore::new();
    let idx = store.create_slot();
    assert_eq!(store.get_result(idx), None);
    store.set_result(42, idx);
    assert_eq!(store.get_result(idx), Some(42));
    assert!(store.is_empty());
}

#[test]
fn oneshot_drop_then_set_frees_slot() {
    let mut store = OneshotStore::new();
    let idx = store.create_slot();
    store.drop_result(idx);
    assert!(!store.is_empty());
    store.set_result(7, idx);
    assert!(store.is_empty());
}

#[test]
fn oneshot_set_then_drop_frees_slot() {
    let mut store = OneshotStore::new();
    let idx = store.create_slot();
    store.set_result(-11, idx);
    store.drop_result(idx);
    assert!(store.is_empty());
}

#[test]
fn oneshot_slots_are_independent() {
    let mut store = OneshotStore::new();
    let a = store.create_slot();
    let b = store.create_slot();
    assert_ne!(a, b);
    store.set_result(1, b);
    assert_eq!(store.get_result(a), None);
    assert_eq!(store.get_result(b), Some(1));
    store.set_result(2, a);
    assert_eq!(store.get_result(a), Some(2));
    assert!(store.is_empty());
}

#[test]
fn multishot_values_in_order_then_finished() {
    let mut store = MultishotStore::new();
    let idx = store.create_slot();
    assert_eq!(store.pop_result(idx), MultishotResult::Pending);
    store.push_result(5, idx);
    store.push_result(6, idx);
    store.set_finished(idx);
    assert_eq!(store.pop_result(idx), MultishotResult::Value(5));
    assert_eq!(store.pop_result(idx), MultishotResult::Value(6));
    assert_eq!(store.pop_result(idx), MultishotResult::Finished);
    assert_eq!(store.pop_result(idx), MultishotResult::Finished);
    store.drop_result(idx);
    assert!(store.is_empty());
}

#[test]
fn multishot_drop_then_finish_frees_slot() {
    let mut store = MultishotStore::new();
    let idx = store.create_slot();
    store.push_result(1, idx);
    store.drop_result(idx);
    assert!(!store.is_empty());
    store.set_finished(idx);
    assert!(store.is_empty());
}

#[test]
fn multishot_full_ring_drops_oldest() {
    let mut store = MultishotStore::new();
    let idx = store.create_slot();
    for v in 0..1025 {
        store.push_result(v, idx);
    }
    assert_eq!(store.pop_result(idx), MultishotResult::Value(1));
    assert_eq!(store.pop_result(idx), MultishotResult::Value(2));
}

#[test]
fn ring_results_empty_tracks_both_stores() {
    let mut results = RingResults::new();
    assert!(results.is_empty());
    let a = results.get_oneshot().create_slot();
    assert!(!results.is_empty());
    let b = results.get_multishot().create_slot();
    results.get_oneshot().set_result(3, a);
    assert_eq!(results.get_oneshot().get_result(a), Some(3));
    assert!(!results.is_empty());
    results.get_multishot().set_finished(b);
    results.get_multishot().drop_result(b);
    assert!(results.is_empty());
}

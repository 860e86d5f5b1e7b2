use cache_serde::engine::{get_or_compute, get_or_compute_value, CallOutcome, ComputeOutcome};
use cache_serde::path::entry_location;
use cache_serde::store::MemStore;

const TTL: i64 = 3600;

/// Runs one invocation of a fallible operation whose computation yields
/// "Hello", counting invocations like the wrapped body's side effect would.
fn call_hello(store: &mut MemStore, key: &Vec<u8>, now: i64, counter: &mut u32) -> Vec<u8> {
    let r = get_or_compute(
        store,
        key,
        TTL,
        now,
        ComputeOutcome::Success(b"Hello".to_vec()),
    );
    if r.invoked {
        *counter += 1;
    }
    match r.outcome {
        CallOutcome::Hit(v) => v,
        CallOutcome::Computed(v) => v,
        _ => panic!("unexpected outcome"),
    }
}

/// The same invocation through the bare-value entry point, for operations
/// whose outcome is not a two-variant result.
fn call_hello_value(store: &mut MemStore, key: &Vec<u8>, now: i64, counter: &mut u32) -> Vec<u8> {
    let r = get_or_compute_value(store, key, TTL, now, b"Hello".to_vec());
    if r.invoked {
        *counter += 1;
    }
    match r.outcome {
        CallOutcome::Hit(v) => v,
        CallOutcome::Computed(v) => v,
        _ => panic!("unexpected outcome"),
    }
}

fn key_for(root: &str) -> Vec<u8> {
    entry_location(&root.as_bytes().to_vec())
}

#[test]
fn check_correct_output() {
    let mut store = MemStore::new();
    let mut counter: u32 = 0;
    let out10 = call_hello(&mut store, &key_for("./cache/10"), 100, &mut counter);
    let out20 = call_hello(&mut store, &key_for("./cache/20"), 101, &mut counter);
    let out30 = call_hello(&mut store, &key_for("./cache/30"), 102, &mut counter);
    assert_eq!(out10, b"Hello".to_vec());
    assert_eq!(out20, b"Hello".to_vec());
    assert_eq!(out30, b"Hello".to_vec());
    assert_eq!(counter, 3);
}

#[test]
fn check_cache_created() {
    let mut store = MemStore::new();
    let mut counter: u32 = 0;
    let key = key_for("./cache/10");
    call_hello(&mut store, &key, 100, &mut counter);
    assert!(store.contains(&key));
}

#[test]
fn check_cache_hit() {
    let mut store = MemStore::new();
    let mut counter: u32 = 0;
    let key = key_for("./cache/40");
    let first = call_hello(&mut store, &key, 100, &mut counter);
    assert_eq!(first, b"Hello".to_vec());
    // Overwrite the stored entry from outside, as another process could:
    // the next call within the time-to-live must answer from storage.
    store.write(&key, 100, b"\"Hello world\"".to_vec());
    let second = call_hello(&mut store, &key, 200, &mut counter);
    assert_eq!(second, b"Hello world".to_vec());
    assert_eq!(counter, 1);
}

#[test]
fn check_cache_not_result() {
    let mut store = MemStore::new();
    let mut counter: u32 = 0;
    let key = key_for("./cache/not_result/50");
    call_hello_value(&mut store, &key, 100, &mut counter);
    assert!(store.contains(&key));
}

#[test]
fn check_cache_hit_not_result() {
    let mut store = MemStore::new();
    let mut counter: u32 = 0;
    let key = key_for("./cache/not_result/60");
    let first = call_hello_value(&mut store, &key, 100, &mut counter);
    assert_eq!(first, b"Hello".to_vec());
    store.write(&key, 100, b"\"Hello world\"".to_vec());
    let second = call_hello_value(&mut store, &key, 200, &mut counter);
    assert_eq!(second, b"Hello world".to_vec());
    assert_eq!(counter, 1);
}

#[test]
fn check_correct_output_not_result() {
    let mut store = MemStore::new();
    let mut counter: u32 = 0;
    let out70 = call_hello_value(&mut store, &key_for("./cache/not_result/70"), 100, &mut counter);
    let out80 = call_hello_value(&mut store, &key_for("./cache/not_result/80"), 101, &mut counter);
    let out90 = call_hello_value(&mut store, &key_for("./cache/not_result/90"), 102, &mut counter);
    assert_eq!(out70, b"Hello".to_vec());
    assert_eq!(out80, b"Hello".to_vec());
    assert_eq!(out90, b"Hello".to_vec());
    assert_eq!(counter, 3);
}

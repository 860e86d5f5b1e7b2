use cache_serde::engine::{
    get_or_compute, start, step, Action, CallOutcome, ComputeOutcome, Event, StoreFault,
};
use cache_serde::store::MemStore;

fn hello() -> ComputeOutcome {
    ComputeOutcome::Success(b"Hello".to_vec())
}

fn payload(outcome: CallOutcome) -> Vec<u8> {
    match outcome {
        CallOutcome::Hit(v) => v,
        CallOutcome::Computed(v) => v,
        _ => panic!("unexpected outcome"),
    }
}

#[test]
fn idempotent_hit_invokes_once() {
    let mut store = MemStore::new();
    let key = b"./cache/10/data.json".to_vec();
    let first = get_or_compute(&mut store, &key, 3600, 1000, hello());
    assert!(first.invoked);
    let mut invocations: u32 = 1;
    for i in 1..6 {
        let r = get_or_compute(&mut store, &key, 3600, 1000 + i, hello());
        if r.invoked {
            invocations += 1;
        }
        assert_eq!(payload(r.outcome), b"Hello".to_vec());
    }
    assert_eq!(invocations, 1);
}

#[test]
fn staleness_boundary() {
    let mut store = MemStore::new();
    let key = b"./cache/10/data.json".to_vec();
    let t = 1000;
    let d = 3600;
    get_or_compute(&mut store, &key, d, t, hello());
    let just_before = get_or_compute(&mut store, &key, d, t + d - 1, hello());
    assert!(!just_before.invoked);
    assert!(matches!(just_before.outcome, CallOutcome::Hit(_)));
    // A failure outcome writes nothing, so the same entry serves both probes.
    let at_boundary = get_or_compute(&mut store, &key, d, t + d, ComputeOutcome::Failure);
    assert!(at_boundary.invoked);
    let just_after = get_or_compute(&mut store, &key, d, t + d + 1, ComputeOutcome::Failure);
    assert!(just_after.invoked);
}

#[test]
fn failure_pass_through_writes_nothing() {
    let mut store = MemStore::new();
    let key = b"./cache/err/data.json".to_vec();
    let r = get_or_compute(&mut store, &key, 3600, 1000, ComputeOutcome::Failure);
    assert!(r.invoked);
    assert!(matches!(r.outcome, CallOutcome::OperationFailed));
    assert!(!store.contains(&key));
}

#[test]
fn failure_leaves_stale_entry_untouched() {
    let mut store = MemStore::new();
    let key = b"./cache/err/data.json".to_vec();
    store.write(&key, 0, b"\"old\"".to_vec());
    let r = get_or_compute(&mut store, &key, 10, 1000, ComputeOutcome::Failure);
    assert!(r.invoked);
    assert!(matches!(r.outcome, CallOutcome::OperationFailed));
    assert_eq!(store.read(&key), b"\"old\"".to_vec());
    assert_eq!(store.modified(&key), 0);
}

#[test]
fn key_isolation() {
    let mut store = MemStore::new();
    let key_a = b"./cache/a/data.json".to_vec();
    let key_b = b"./cache/b/data.json".to_vec();
    get_or_compute(
        &mut store,
        &key_b,
        3600,
        1000,
        ComputeOutcome::Success(b"for b".to_vec()),
    );
    // Writing under key A must not affect reads under key B.
    get_or_compute(
        &mut store,
        &key_a,
        3600,
        1500,
        ComputeOutcome::Success(b"for a".to_vec()),
    );
    let rb = get_or_compute(&mut store, &key_b, 3600, 2000, hello());
    assert!(!rb.invoked);
    assert_eq!(payload(rb.outcome), b"for b".to_vec());
    let ra = get_or_compute(&mut store, &key_a, 3600, 2000, hello());
    assert!(!ra.invoked);
    assert_eq!(payload(ra.outcome), b"for a".to_vec());
}

#[test]
fn second_call_reads_external_overwrite() {
    // TTL 3600, no prior entry for key 10: the first call executes the body
    // and returns "Hello"; the store then holds an entry for the key. The
    // second call within the time-to-live does not execute the body and
    // returns what storage holds, even after an external overwrite.
    let mut store = MemStore::new();
    let key = b"./cache/10/data.json".to_vec();
    let mut counter: u32 = 0;
    let first = get_or_compute(&mut store, &key, 3600, 1000, hello());
    if first.invoked {
        counter += 1;
    }
    assert_eq!(payload(first.outcome), b"Hello".to_vec());
    assert!(store.contains(&key));
    store.write(&key, 1000, b"\"Hello world\"".to_vec());
    let second = get_or_compute(&mut store, &key, 3600, 1001, hello());
    if second.invoked {
        counter += 1;
    }
    assert_eq!(counter, 1);
    assert_eq!(payload(second.outcome), b"Hello world".to_vec());
}

#[test]
fn external_deletion_is_a_miss() {
    let mut store = MemStore::new();
    let key = b"./cache/10/data.json".to_vec();
    get_or_compute(&mut store, &key, 3600, 1000, hello());
    assert!(store.contains(&key));
    // An entry deleted from outside is treated exactly like one never written.
    store.delete(&key);
    assert!(!store.contains(&key));
    let r = get_or_compute(&mut store, &key, 3600, 1001, hello());
    assert!(r.invoked);
    assert!(matches!(r.outcome, CallOutcome::Computed(_)));
}

#[test]
fn zero_ttl_always_recomputes() {
    let mut store = MemStore::new();
    let key = b"./cache/10/data.json".to_vec();
    let first = get_or_compute(&mut store, &key, 0, 1000, hello());
    let second = get_or_compute(&mut store, &key, 0, 1000, hello());
    assert!(first.invoked);
    assert!(second.invoked);
}

#[test]
fn corrupt_entry_is_a_deserialize_fault() {
    let mut store = MemStore::new();
    let key = b"./cache/10/data.json".to_vec();
    store.write(&key, 1000, b"not json at all".to_vec());
    let r = get_or_compute(&mut store, &key, 3600, 1001, hello());
    assert!(!r.invoked);
    assert!(matches!(
        r.outcome,
        CallOutcome::Fault(StoreFault::Deserialize)
    ));
}

#[test]
fn infrastructure_faults_short_circuit() {
    // A namespace-creation failure finishes before anything else runs.
    let t = start();
    let t = step(3600, t.phase, Event::NamespaceFailed);
    assert!(matches!(
        t.action,
        Action::Finish { outcome: CallOutcome::Fault(StoreFault::Namespace) }
    ));

    // An existence-probe failure is a probe fault.
    let t = start();
    let t = step(3600, t.phase, Event::NamespaceReady);
    let t = step(3600, t.phase, Event::ProbeFailed);
    assert!(matches!(
        t.action,
        Action::Finish { outcome: CallOutcome::Fault(StoreFault::Probe) }
    ));

    // An age-probe failure on an existing entry is a probe fault.
    let t = start();
    let t = step(3600, t.phase, Event::NamespaceReady);
    let t = step(3600, t.phase, Event::EntryExists(true));
    assert!(matches!(t.action, Action::StatEntry));
    let t = step(3600, t.phase, Event::StatFailed);
    assert!(matches!(
        t.action,
        Action::Finish { outcome: CallOutcome::Fault(StoreFault::Probe) }
    ));

    // A read failure on an entry believed fresh is reported, not retried.
    let t = start();
    let t = step(3600, t.phase, Event::NamespaceReady);
    let t = step(3600, t.phase, Event::EntryExists(true));
    let t = step(3600, t.phase, Event::EntryStat { modified: 1000, now: 1001 });
    assert!(matches!(t.action, Action::ReadEntry));
    let t = step(3600, t.phase, Event::ReadFailed);
    assert!(matches!(
        t.action,
        Action::Finish { outcome: CallOutcome::Fault(StoreFault::Read) }
    ));
}

#[test]
fn success_is_persisted_fire_and_forget() {
    // On a miss with a success outcome the machine hands the serialized
    // payload to the detached write and returns the payload at once.
    let t = start();
    let t = step(3600, t.phase, Event::NamespaceReady);
    let t = step(3600, t.phase, Event::EntryExists(false));
    assert!(matches!(t.action, Action::RunCompute));
    let t = step(3600, t.phase, Event::Computed(hello()));
    match t.action {
        Action::PersistAndFinish { data, outcome } => {
            assert_eq!(data, b"\"Hello\"".to_vec());
            assert_eq!(payload(outcome), b"Hello".to_vec());
        }
        _ => panic!("expected a persist"),
    }
}

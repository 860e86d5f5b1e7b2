//! The cache engine: the read/compute/write protocol of one invocation.
//!
//! The protocol is a small state machine. `step` makes every decision from
//! plain values — whether an entry exists, how old it is, what its bytes
//! are, what the computation produced — and answers with the next action:
//! probe, read, run the computation, persist, or finish. A runner performs
//! the actions against real storage and feeds the answers back; against the
//! in-memory store the whole run is `get_or_compute`, verified against
//! `run_model`, the protocol's specification.
//!
//! Each invocation is an independent run with no cross-invocation state.
//! Two concurrent invocations sharing a key during a miss may both run the
//! computation and race on the write, and whichever write lands last wins:
//! that is deliberate, and no lock or single-flight deduplication may be
//! added without changing the observable behavior.

use vstd::pervasive::unreached;
use vstd::prelude::*;

use crate::codec::{decode_payload, decode_string, encode_payload, encode_string};
use crate::staleness::{fresh, is_fresh};
use crate::store::{EntryModel, MemStore};

verus! {

/// What the wrapped operation produced: a success payload (serialized bytes,
/// the only part ever cached) or a failure, which is passed through untouched
/// and never persisted.
#[derive(Debug)]
pub enum ComputeOutcome {
    Success(Vec<u8>),
    Failure,
}

pub ghost enum ComputeModel {
    Success(Seq<u8>),
    Failure,
}

impl View for ComputeOutcome {
    type V = ComputeModel;

    open spec fn view(&self) -> ComputeModel {
        match self {
            ComputeOutcome::Success(v) => ComputeModel::Success(v@),
            ComputeOutcome::Failure => ComputeModel::Failure,
        }
    }
}

/// A cache-infrastructure fault, distinct from the operation's own failure.
#[derive(Clone, Copy, PartialEq, Eq, Structural, Debug)]
pub enum StoreFault {
    /// Creating the entry's namespace failed.
    Namespace,
    /// The existence or age probe failed.
    Probe,
    /// Reading an entry believed fresh failed.
    Read,
    /// An entry believed fresh did not deserialize; corruption is reported,
    /// never silently treated as a miss.
    Deserialize,
}

/// What one invocation returns to its caller.
#[derive(Debug)]
pub enum CallOutcome {
    /// Answered from storage; the computation did not run.
    Hit(Vec<u8>),
    /// The computation ran and this success payload was persisted.
    Computed(Vec<u8>),
    /// The computation's own failure, passed through unchanged.
    OperationFailed,
    /// A fault of the cache layer itself.
    Fault(StoreFault),
}

pub ghost enum OutcomeModel {
    Hit(Seq<u8>),
    Computed(Seq<u8>),
    OperationFailed,
    Fault(StoreFault),
}

impl View for CallOutcome {
    type V = OutcomeModel;

    open spec fn view(&self) -> OutcomeModel {
        match self {
            CallOutcome::Hit(v) => OutcomeModel::Hit(v@),
            CallOutcome::Computed(v) => OutcomeModel::Computed(v@),
            CallOutcome::OperationFailed => OutcomeModel::OperationFailed,
            CallOutcome::Fault(f) => OutcomeModel::Fault(*f),
        }
    }
}

/// The result of one invocation, and whether it invoked the computation.
#[derive(Debug)]
pub struct CallRecord {
    pub outcome: CallOutcome,
    pub invoked: bool,
}

/// A key has a valid entry: present, and younger than the time-to-live.
pub open spec fn has_fresh_entry(
    store: Map<Seq<u8>, EntryModel>,
    key: Seq<u8>,
    ttl: int,
    now: int,
) -> bool {
    store.contains_key(key) && is_fresh(now, store[key].modified, ttl)
}

pub ghost struct RunModel {
    pub store: Map<Seq<u8>, EntryModel>,
    pub outcome: OutcomeModel,
    pub invoked: bool,
}

/// The protocol of one invocation, as a function of the store's state, the
/// key, the time-to-live, the clock, and the computation's outcome.
///
/// A fresh entry answers the call from storage without invoking the
/// computation; stored bytes that do not deserialize are a fault. Otherwise
/// the computation runs: its failure passes through with no write, its
/// success is persisted under the key, stamped with `now`, and returned.
pub open spec fn run_model(
    store: Map<Seq<u8>, EntryModel>,
    key: Seq<u8>,
    ttl: int,
    now: int,
    c: ComputeModel,
) -> RunModel {
    if has_fresh_entry(store, key, ttl, now) {
        match decode_string(store[key].data) {
            Some(v) => RunModel { store, outcome: OutcomeModel::Hit(v), invoked: false },
            None => RunModel {
                store,
                outcome: OutcomeModel::Fault(StoreFault::Deserialize),
                invoked: false,
            },
        }
    } else {
        match c {
            ComputeModel::Failure => RunModel {
                store,
                outcome: OutcomeModel::OperationFailed,
                invoked: true,
            },
            ComputeModel::Success(v) => RunModel {
                store: store.insert(key, EntryModel { modified: now, data: encode_string(v) }),
                outcome: OutcomeModel::Computed(v),
                invoked: true,
            },
        }
    }
}

/// Where the protocol stands between two actions.
#[derive(Clone, Copy, PartialEq, Eq, Structural, Debug)]
pub enum Phase {
    EnsureNamespace,
    ProbeEntry,
    CheckFreshness,
    ReadEntry,
    RunCompute,
    Done,
}

/// What the runner reports back after performing an action.
#[derive(Debug)]
pub enum Event {
    NamespaceReady,
    NamespaceFailed,
    EntryExists(bool),
    ProbeFailed,
    EntryStat { modified: i64, now: i64 },
    StatFailed,
    EntryData(Vec<u8>),
    ReadFailed,
    Computed(ComputeOutcome),
}

/// What the runner must do next. `PersistAndFinish` is the fire-and-forget
/// write: the runner returns the outcome at once and lets the write run to
/// completion on its own; a late write failure never alters the outcome.
#[derive(Debug)]
pub enum Action {
    EnsureNamespace,
    ProbeEntry,
    StatEntry,
    ReadEntry,
    RunCompute,
    PersistAndFinish { data: Vec<u8>, outcome: CallOutcome },
    Finish { outcome: CallOutcome },
}

#[derive(Debug)]
pub struct Transition {
    pub phase: Phase,
    pub action: Action,
}

/// Which report each phase is waiting for.
pub open spec fn phase_accepts(phase: Phase, event: Event) -> bool {
    match phase {
        Phase::EnsureNamespace => event is NamespaceReady || event is NamespaceFailed,
        Phase::ProbeEntry => event is EntryExists || event is ProbeFailed,
        Phase::CheckFreshness => event is EntryStat || event is StatFailed,
        Phase::ReadEntry => event is EntryData || event is ReadFailed,
        Phase::RunCompute => event is Computed,
        Phase::Done => false,
    }
}

/// The first action of every invocation: resolve and create the entry's
/// namespace, which is idempotent and no error when it already exists.
pub fn start() -> (t: Transition)
    ensures
        t.phase is EnsureNamespace,
        t.action is EnsureNamespace,
{
    Transition { phase: Phase::EnsureNamespace, action: Action::EnsureNamespace }
}

/// One decision of the protocol. Every branch of the protocol is pinned:
/// a fault before the staleness decision short-circuits; a fresh entry is
/// read and decoded, never recomputed; a stale or absent one runs the
/// computation; a failure outcome finishes with no write; a success is
/// serialized and handed to the fire-and-forget persist.
pub fn step(ttl: i64, phase: Phase, event: Event) -> (t: Transition)
    requires
        phase_accepts(phase, event),
    ensures
        (phase is EnsureNamespace && event is NamespaceReady ==> t.phase is ProbeEntry
            && t.action is ProbeEntry),
        (phase is EnsureNamespace && event is NamespaceFailed ==> t.phase is Done
            && (t.action matches Action::Finish { outcome } && outcome@ == OutcomeModel::Fault(
            StoreFault::Namespace,
        ))),
        (event matches Event::EntryExists(ex) ==> phase is ProbeEntry ==> t.phase == (if ex {
            Phase::CheckFreshness
        } else {
            Phase::RunCompute
        }) && t.action == (if ex {
            Action::StatEntry
        } else {
            Action::RunCompute
        })),
        (phase is ProbeEntry && event is ProbeFailed ==> t.phase is Done && (t.action
            matches Action::Finish { outcome } && outcome@ == OutcomeModel::Fault(
            StoreFault::Probe,
        ))),
        (event matches Event::EntryStat { modified, now } ==> phase is CheckFreshness ==> t.phase
            == (if is_fresh(now as int, modified as int, ttl as int) {
            Phase::ReadEntry
        } else {
            Phase::RunCompute
        }) && t.action == (if is_fresh(now as int, modified as int, ttl as int) {
            Action::ReadEntry
        } else {
            Action::RunCompute
        })),
        (phase is CheckFreshness && event is StatFailed ==> t.phase is Done && (t.action
            matches Action::Finish { outcome } && outcome@ == OutcomeModel::Fault(
            StoreFault::Probe,
        ))),
        (event matches Event::EntryData(d) ==> phase is ReadEntry ==> t.phase is Done && (match
        decode_string(d@) {
            Some(v) => t.action matches Action::Finish { outcome } && outcome@
                == OutcomeModel::Hit(v),
            None => t.action matches Action::Finish { outcome } && outcome@
                == OutcomeModel::Fault(StoreFault::Deserialize),
        })),
        (phase is ReadEntry && event is ReadFailed ==> t.phase is Done && (t.action
            matches Action::Finish { outcome } && outcome@ == OutcomeModel::Fault(
            StoreFault::Read,
        ))),
        (event matches Event::Computed(c) ==> phase is RunCompute ==> t.phase is Done && (match c@ {
            ComputeModel::Failure => t.action matches Action::Finish { outcome } && outcome@
                == OutcomeModel::OperationFailed,
            ComputeModel::Success(v) => t.action matches Action::PersistAndFinish {
                data,
                outcome,
            } && data@ == encode_string(v) && outcome@ == OutcomeModel::Computed(v),
        })),
{
    match (phase, event) {
        (Phase::EnsureNamespace, Event::NamespaceReady) => Transition {
            phase: Phase::ProbeEntry,
            action: Action::ProbeEntry,
        },
        (Phase::EnsureNamespace, Event::NamespaceFailed) => Transition {
            phase: Phase::Done,
            action: Action::Finish { outcome: CallOutcome::Fault(StoreFault::Namespace) },
        },
        (Phase::ProbeEntry, Event::EntryExists(ex)) => {
            if ex {
                Transition { phase: Phase::CheckFreshness, action: Action::StatEntry }
            } else {
                Transition { phase: Phase::RunCompute, action: Action::RunCompute }
            }
        },
        (Phase::ProbeEntry, Event::ProbeFailed) => Transition {
            phase: Phase::Done,
            action: Action::Finish { outcome: CallOutcome::Fault(StoreFault::Probe) },
        },
        (Phase::CheckFreshness, Event::EntryStat { modified, now }) => {
            if fresh(now, modified, ttl) {
                Transition { phase: Phase::ReadEntry, action: Action::ReadEntry }
            } else {
                Transition { phase: Phase::RunCompute, action: Action::RunCompute }
            }
        },
        (Phase::CheckFreshness, Event::StatFailed) => Transition {
            phase: Phase::Done,
            action: Action::Finish { outcome: CallOutcome::Fault(StoreFault::Probe) },
        },
        (Phase::ReadEntry, Event::EntryData(d)) => {
            match decode_payload(&d) {
                Some(v) => Transition {
                    phase: Phase::Done,
                    action: Action::Finish { outcome: CallOutcome::Hit(v) },
                },
                None => Transition {
                    phase: Phase::Done,
                    action: Action::Finish { outcome: CallOutcome::Fault(StoreFault::Deserialize) },
                },
            }
        },
        (Phase::ReadEntry, Event::ReadFailed) => Transition {
            phase: Phase::Done,
            action: Action::Finish { outcome: CallOutcome::Fault(StoreFault::Read) },
        },
        (Phase::RunCompute, Event::Computed(c)) => {
            match c {
                ComputeOutcome::Failure => Transition {
                    phase: Phase::Done,
                    action: Action::Finish { outcome: CallOutcome::OperationFailed },
                },
                ComputeOutcome::Success(v) => {
                    let data = encode_payload(&v);
                    Transition {
                        phase: Phase::Done,
                        action: Action::PersistAndFinish {
                            data,
                            outcome: CallOutcome::Computed(v),
                        },
                    }
                },
            }
        },
        _ => unreached(),
    }
}

/// The miss path: run the computation, pass a failure through with no write,
/// persist a success under the key stamped with `now`, and return it.
fn compute_and_persist(
    store: &mut MemStore,
    key: &Vec<u8>,
    ttl: i64,
    now: i64,
    compute: ComputeOutcome,
) -> (r: CallRecord)
    requires
        old(store).wf(),
    ensures
        final(store).wf(),
        r.invoked,
        (match compute@ {
            ComputeModel::Failure => final(store)@ == old(store)@ && r.outcome@
                == OutcomeModel::OperationFailed,
            ComputeModel::Success(v) => final(store)@ == old(store)@.insert(
                key@,
                EntryModel { modified: now as int, data: encode_string(v) },
            ) && r.outcome@ == OutcomeModel::Computed(v),
        }),
{
    let t = step(ttl, Phase::RunCompute, Event::Computed(compute));
    match t.action {
        Action::Finish { outcome } => CallRecord { outcome, invoked: true },
        Action::PersistAndFinish { data, outcome } => {
            store.write(key, now, data);
            CallRecord { outcome, invoked: true }
        },
        _ => unreached(),
    }
}

/// The bare-value entry point: wraps an operation whose outcome is a plain
/// value rather than a two-variant outcome. Identical to `get_or_compute`
/// with the value as the success payload, and it can never report the
/// operation as failed.
pub fn get_or_compute_value(
    store: &mut MemStore,
    key: &Vec<u8>,
    ttl: i64,
    now: i64,
    value: Vec<u8>,
) -> (r: CallRecord)
    requires
        old(store).wf(),
    ensures
        final(store).wf(),
        ({
            let m = run_model(
                old(store)@,
                key@,
                ttl as int,
                now as int,
                ComputeModel::Success(value@),
            );
            final(store)@ == m.store && r.outcome@ == m.outcome && r.invoked == m.invoked
        }),
        !(r.outcome is OperationFailed),
{
    get_or_compute(store, key, ttl, now, ComputeOutcome::Success(value))
}

/// One whole invocation against the in-memory store: the engine's public
/// operation, verified to follow `run_model` exactly.
pub fn get_or_compute(
    store: &mut MemStore,
    key: &Vec<u8>,
    ttl: i64,
    now: i64,
    compute: ComputeOutcome,
) -> (r: CallRecord)
    requires
        old(store).wf(),
    ensures
        final(store).wf(),
        ({
            let m = run_model(old(store)@, key@, ttl as int, now as int, compute@);
            final(store)@ == m.store && r.outcome@ == m.outcome && r.invoked == m.invoked
        }),
{
    let t0 = start();
    let t1 = step(ttl, t0.phase, Event::NamespaceReady);
    let exists = store.contains(key);
    let t2 = step(ttl, t1.phase, Event::EntryExists(exists));
    if exists {
        let modified = store.modified(key);
        let t3 = step(ttl, t2.phase, Event::EntryStat { modified, now });
        if fresh(now, modified, ttl) {
            let data = store.read(key);
            let t4 = step(ttl, t3.phase, Event::EntryData(data));
            match t4.action {
                Action::Finish { outcome } => CallRecord { outcome, invoked: false },
                _ => unreached(),
            }
        } else {
            compute_and_persist(store, key, ttl, now, compute)
        }
    } else {
        compute_and_persist(store, key, ttl, now, compute)
    }
}

} // verus!

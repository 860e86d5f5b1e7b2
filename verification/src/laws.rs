//! What holds of the protocol across calls: laws proved of `run_model`, the
//! specification every run of the engine is verified against.

use vstd::prelude::*;

use crate::codec::{decode_string, encode_string, lemma_codec_round_trip};
use crate::engine::{has_fresh_entry, run_model, ComputeModel, OutcomeModel};
use crate::store::EntryModel;

verus! {

/// Idempotent hit. After one miss that computed `v` at time `t0`, every call
/// for the same key whose clock still lies within the time-to-live answers
/// `Hit(v)` from storage, does not invoke the computation — whatever that
/// computation would produce — and leaves the store exactly as the miss left
/// it. Since the store is unchanged, this covers each of any number of such
/// calls in turn: the computation runs exactly once.
pub proof fn lemma_idempotent_hit(
    store: Map<Seq<u8>, EntryModel>,
    key: Seq<u8>,
    ttl: int,
    t0: int,
    v: Seq<u8>,
    t: int,
    c: ComputeModel,
)
    requires
        !has_fresh_entry(store, key, ttl, t0),
        t0 <= t,
        t - t0 < ttl,
    ensures
        run_model(store, key, ttl, t0, ComputeModel::Success(v)).invoked,
        ({
            let first = run_model(store, key, ttl, t0, ComputeModel::Success(v));
            let later = run_model(first.store, key, ttl, t, c);
            &&& !later.invoked
            &&& later.outcome == OutcomeModel::Hit(v)
            &&& later.store == first.store
        }),
{
    let first = run_model(store, key, ttl, t0, ComputeModel::Success(v));
    assert(first.store[key] == EntryModel { modified: t0, data: encode_string(v) });
    lemma_codec_round_trip(v);
}

/// Staleness boundary. For an entry written at `t` under time-to-live `d`,
/// a call any instant before `t + d` is answered without invoking the
/// computation, and a call at `t + d` or after invokes it.
pub proof fn lemma_staleness_boundary(
    store: Map<Seq<u8>, EntryModel>,
    key: Seq<u8>,
    d: int,
    t: int,
    eps: int,
    c: ComputeModel,
)
    requires
        store.contains_key(key),
        store[key].modified == t,
        0 < eps,
    ensures
        !run_model(store, key, d, t + d - eps, c).invoked,
        run_model(store, key, d, t + d, c).invoked,
        run_model(store, key, d, t + d + eps, c).invoked,
{
}

/// Round-trip. Any success payload persisted in the entry format reads back
/// equal to itself, so a later hit returns exactly what was computed.
pub proof fn lemma_round_trip(p: Seq<u8>)
    ensures
        decode_string(encode_string(p)) == Some(p),
{
    lemma_codec_round_trip(p);
}

/// Failure pass-through. The store is never changed by a call whose
/// computation fails; and whenever such a call does invoke the computation,
/// the failure itself is returned, never reinterpreted or cached.
pub proof fn lemma_failure_pass_through(
    store: Map<Seq<u8>, EntryModel>,
    key: Seq<u8>,
    ttl: int,
    now: int,
)
    ensures
        run_model(store, key, ttl, now, ComputeModel::Failure).store == store,
        run_model(store, key, ttl, now, ComputeModel::Failure).invoked ==> run_model(
            store,
            key,
            ttl,
            now,
            ComputeModel::Failure,
        ).outcome == OutcomeModel::OperationFailed,
{
}

/// Key isolation. A call under one key neither adds, removes nor alters the
/// entry of any other key, and what a call under the other key returns is
/// unchanged by it.
pub proof fn lemma_key_isolation(
    store: Map<Seq<u8>, EntryModel>,
    key_a: Seq<u8>,
    key_b: Seq<u8>,
    ttl_a: int,
    now_a: int,
    c_a: ComputeModel,
    ttl_b: int,
    now_b: int,
    c_b: ComputeModel,
)
    requires
        key_a != key_b,
    ensures
        ({
            let after_a = run_model(store, key_a, ttl_a, now_a, c_a).store;
            &&& after_a.contains_key(key_b) == store.contains_key(key_b)
            &&& (store.contains_key(key_b) ==> after_a[key_b] == store[key_b])
            &&& run_model(after_a, key_b, ttl_b, now_b, c_b).outcome == run_model(
                store,
                key_b,
                ttl_b,
                now_b,
                c_b,
            ).outcome
            &&& run_model(after_a, key_b, ttl_b, now_b, c_b).invoked == run_model(
                store,
                key_b,
                ttl_b,
                now_b,
                c_b,
            ).invoked
        }),
{
}

/// A zero time-to-live always recomputes: whenever the stored entry is no
/// younger than the clock — in particular right after a write, for any
/// monotone clock — a call is a miss, so two consecutive calls both execute
/// the computation.
pub proof fn lemma_zero_ttl_recomputes(
    store: Map<Seq<u8>, EntryModel>,
    key: Seq<u8>,
    now1: int,
    now2: int,
    v: Seq<u8>,
    c: ComputeModel,
)
    requires
        store.contains_key(key) ==> store[key].modified <= now1,
        now1 <= now2,
    ensures
        run_model(store, key, 0, now1, ComputeModel::Success(v)).invoked,
        run_model(
            run_model(store, key, 0, now1, ComputeModel::Success(v)).store,
            key,
            0,
            now2,
            c,
        ).invoked,
{
}

} // verus!

//! The process reconciler: the decisions that bridge the wanted state of an
//! object and the containers observed from the runtime.  Runtime calls
//! themselves happen at the edge; each decision here says exactly which
//! containers to touch, and how the store moves.

use vstd::prelude::*;

use crate::err::{ApiError, ErrorKind};
use crate::events::{Event, EventObjectKind, EventView, NativeEventAction};
use crate::models::{ProcessDb, ProcessDbView, ProcessKind};
use crate::status::{ObjPsStatus, ObjPsStatusKind};
use crate::store::{
    has_status, lemma_filter_push, lemma_take_succ, spec_status_of, Store, StoreView,
};

verus! {

/// The outcome of a container-runtime call, as the edge reports it.
#[derive(Debug)]
pub enum RuntimeResult {
    /// The call succeeded.
    Done,
    /// The runtime no longer knows the container.
    Missing,
    /// The runtime failed with a message.
    Failure(String),
}

/// The event-object kind of a process kind.
pub open spec fn spec_event_kind(kind: ProcessKind) -> EventObjectKind {
    match kind {
        ProcessKind::Cargo => EventObjectKind::Cargo,
        ProcessKind::Vm => EventObjectKind::Vm,
        ProcessKind::Job => EventObjectKind::Job,
    }
}

/// Map a process kind onto the event-object kind.
pub fn event_kind_of(kind: ProcessKind) -> (r: EventObjectKind)
    ensures
        r == spec_event_kind(kind),
{
    match kind {
        ProcessKind::Cargo => EventObjectKind::Cargo,
        ProcessKind::Vm => EventObjectKind::Vm,
        ProcessKind::Job => EventObjectKind::Job,
    }
}

/// Request a start of an object.  When the object is already observed as
/// `Running`, or as `Starting` because an earlier start is under way, the
/// request is a no-op: the status is untouched, no container is touched,
/// and no event is due, so concurrent starts serialised by the per-object
/// lock yield exactly one transition.  Otherwise the intent moves to
/// `Running`, the observation to `Starting`, both previous values are
/// recorded, and the `Starting` event to publish is handed back.  Fails
/// with `NotFound` when no status is held for the key.
pub fn start_process_by_kind_key(store: &mut Store, kind: ProcessKind, kind_key: &str) -> (r:
    Result<Option<Event>, ApiError>)
    requires
        old(store)@.inv(),
    ensures
        final(store)@.inv(),
        !has_status(old(store)@.statuses, kind_key@) ==> r is Err && r->Err_0.kind
            == ErrorKind::NotFound && final(store)@ == old(store)@,
        crate::store::spec_obj_active(old(store)@.statuses, kind_key@) ==> r == Result::<
            Option<Event>,
            ApiError,
        >::Ok(None) && final(store)@ == old(store)@,
        has_status(old(store)@.statuses, kind_key@) && !crate::store::spec_obj_active(
            old(store)@.statuses,
            kind_key@,
        ) ==> r is Ok && r->Ok_0 is Some
            && r->Ok_0->0@ == (EventView {
            kind: spec_event_kind(kind),
            action: NativeEventAction::Starting,
            key: kind_key@,
        }) && spec_status_of(final(store)@.statuses, kind_key@) == Some(
            ObjPsStatus {
                wanted: ObjPsStatusKind::Running,
                prev_wanted: spec_status_of(old(store)@.statuses, kind_key@)->0.wanted,
                actual: ObjPsStatusKind::Starting,
                prev_actual: spec_status_of(old(store)@.statuses, kind_key@)->0.actual,
            },
        ) && (forall|k: Seq<char>|
            k != kind_key@ ==> #[trigger] spec_status_of(final(store)@.statuses, k)
                == spec_status_of(old(store)@.statuses, k)),
        final(store)@.processes == old(store)@.processes,
        final(store)@.cargoes == old(store)@.cargoes,
        final(store)@.specs == old(store)@.specs,
        final(store)@.vms == old(store)@.vms,
        final(store)@.namespaces == old(store)@.namespaces,
        final(store)@.resources == old(store)@.resources,
        final(store)@.secrets == old(store)@.secrets,
        final(store)@.nodes == old(store)@.nodes,
        final(store)@.jobs == old(store)@.jobs,
{
    let current = match store.read_status(kind_key) {
        Ok(st) => st,
        Err(e) => {
            return Err(e);
        },
    };
    if matches!(current.actual, ObjPsStatusKind::Running | ObjPsStatusKind::Starting) {
        return Ok(None);
    }
    let update = crate::status::start_status_update(&current);
    let next = current.apply(&update);
    store.upsert_status(kind_key, next);
    Ok(
        Some(
            Event {
                kind: event_kind_of(kind),
                action: NativeEventAction::Starting,
                key: kind_key.to_owned(),
            },
        ),
    )
}

/// Plan a stop of an object: the containers to stop are exactly its
/// processes the runtime reports as running, in table order, and the
/// `Stopping` event to publish after the stops is handed back.  The store
/// is not touched; the observation moves when the runtime reports the
/// containers stopped.
pub fn stop_process_by_kind_key(store: &Store, kind: ProcessKind, kind_key: &str) -> (r: (
    Vec<String>,
    Event,
))
    ensures
        r.0@.map_values(|s: String| s@) == store@.processes.filter(
            |p: ProcessDbView| p.kind_key == kind_key@ && p.running,
        ).map_values(|p: ProcessDbView| p.key),
        r.1@ == (EventView {
            kind: spec_event_kind(kind),
            action: NativeEventAction::Stopping,
            key: kind_key@,
        }),
{
    let k = kind_key.to_owned();
    let mut ids: Vec<String> = Vec::new();
    let mut i: usize = 0;
    while i < store.processes.len()
        invariant
            0 <= i <= store.processes.len(),
            k@ == kind_key@,
            ids@.map_values(|s: String| s@) == store@.processes.take(i as int).filter(
                |p: ProcessDbView| p.kind_key == kind_key@ && p.running,
            ).map_values(|p: ProcessDbView| p.key),
        decreases store.processes.len() - i,
    {
        proof {
            lemma_take_succ(store@.processes, i as int);
            lemma_filter_push(
                store@.processes.take(i as int),
                |p: ProcessDbView| p.kind_key == kind_key@ && p.running,
                store@.processes[i as int],
            );
        }
        if store.processes[i].kind_key.eq(&k) && store.processes[i].running {
            let ghost before = ids@.map_values(|s: String| s@);
            ids.push(store.processes[i].key.clone());
            proof {
                assert(ids@.map_values(|s: String| s@) =~= before.push(
                    store@.processes[i as int].key,
                ));
                assert(store@.processes.take(i + 1 as int).filter(
                    |p: ProcessDbView| p.kind_key == kind_key@ && p.running,
                ).map_values(|p: ProcessDbView| p.key) =~= store@.processes.take(
                    i as int,
                ).filter(|p: ProcessDbView| p.kind_key == kind_key@ && p.running).map_values(
                    |p: ProcessDbView| p.key,
                ).push(store@.processes[i as int].key));
            }
        } else {
            proof {
                assert(store@.processes.take(i + 1 as int).filter(
                    |p: ProcessDbView| p.kind_key == kind_key@ && p.running,
                ).map_values(|p: ProcessDbView| p.key) =~= store@.processes.take(
                    i as int,
                ).filter(|p: ProcessDbView| p.kind_key == kind_key@ && p.running).map_values(
                    |p: ProcessDbView| p.key,
                ));
            }
        }
        i += 1;
    }
    proof {
        assert(store@.processes.take(store.processes.len() as int) =~= store@.processes);
    }
    let ev = Event {
        kind: event_kind_of(kind),
        action: NativeEventAction::Stopping,
        key: kind_key.to_owned(),
    };
    (ids, ev)
}

/// The container keys of every process owned by the key, in table order.
pub fn process_keys_of(store: &Store, kind_key: &str) -> (r: Vec<String>)
    ensures
        r@.map_values(|s: String| s@) == store@.processes.filter(
            |p: ProcessDbView| p.kind_key == kind_key@,
        ).map_values(|p: ProcessDbView| p.key),
{
    let k = kind_key.to_owned();
    let mut ids: Vec<String> = Vec::new();
    let mut i: usize = 0;
    while i < store.processes.len()
        invariant
            0 <= i <= store.processes.len(),
            k@ == kind_key@,
            ids@.map_values(|s: String| s@) == store@.processes.take(i as int).filter(
                |p: ProcessDbView| p.kind_key == kind_key@,
            ).map_values(|p: ProcessDbView| p.key),
        decreases store.processes.len() - i,
    {
        proof {
            lemma_take_succ(store@.processes, i as int);
            lemma_filter_push(
                store@.processes.take(i as int),
                |p: ProcessDbView| p.kind_key == kind_key@,
                store@.processes[i as int],
            );
        }
        if store.processes[i].kind_key.eq(&k) {
            let ghost before = ids@.map_values(|s: String| s@);
            ids.push(store.processes[i].key.clone());
            proof {
                assert(ids@.map_values(|s: String| s@) =~= before.push(
                    store@.processes[i as int].key,
                ));
                assert(store@.processes.take(i + 1 as int).filter(
                    |p: ProcessDbView| p.kind_key == kind_key@,
                ).map_values(|p: ProcessDbView| p.key) =~= store@.processes.take(
                    i as int,
                ).filter(|p: ProcessDbView| p.kind_key == kind_key@).map_values(
                    |p: ProcessDbView| p.key,
                ).push(store@.processes[i as int].key));
            }
        } else {
            proof {
                assert(store@.processes.take(i + 1 as int).filter(
                    |p: ProcessDbView| p.kind_key == kind_key@,
                ).map_values(|p: ProcessDbView| p.key) =~= store@.processes.take(
                    i as int,
                ).filter(|p: ProcessDbView| p.kind_key == kind_key@).map_values(
                    |p: ProcessDbView| p.key,
                ));
            }
        }
        i += 1;
    }
    proof {
        assert(store@.processes.take(store.processes.len() as int) =~= store@.processes);
    }
    ids
}

/// Plan a restart of an object: every one of its containers is restarted,
/// and the `Restart` event to publish is handed back.
pub fn restart_process_by_kind_key(store: &Store, kind: ProcessKind, kind_key: &str) -> (r: (
    Vec<String>,
    Event,
))
    ensures
        r.0@.map_values(|s: String| s@) == store@.processes.filter(
            |p: ProcessDbView| p.kind_key == kind_key@,
        ).map_values(|p: ProcessDbView| p.key),
        r.1@ == (EventView {
            kind: spec_event_kind(kind),
            action: NativeEventAction::Restart,
            key: kind_key@,
        }),
{
    let ids = process_keys_of(store, kind_key);
    let ev = Event {
        kind: event_kind_of(kind),
        action: NativeEventAction::Restart,
        key: kind_key.to_owned(),
    };
    (ids, ev)
}

/// Plan a kill of an object: the signal is forwarded to every one of its
/// containers, and no event is due here; the caller observes the runtime's
/// own events.
pub fn kill_process_by_kind_key(store: &Store, kind_key: &str) -> (r: Vec<String>)
    ensures
        r@.map_values(|s: String| s@) == store@.processes.filter(
            |p: ProcessDbView| p.kind_key == kind_key@,
        ).map_values(|p: ProcessDbView| p.key),
{
    process_keys_of(store, kind_key)
}

/// Settle a container removal: a runtime failure other than a missing
/// container surfaces as a `Runtime` error and leaves the store alone,
/// while success and a missing container alike drop the process row, so
/// that removing an already-gone container succeeds.  The caller owes that
/// no object observed as `Running` is left without another running
/// process.
pub fn del_process_by_pk(store: &mut Store, pk: &str, runtime: RuntimeResult) -> (r: Result<
    (),
    ApiError,
>)
    requires
        old(store)@.inv(),
        forall|i: int|
            0 <= i < old(store)@.statuses.len()
                && (#[trigger] old(store)@.statuses[i]).status.actual
                == ObjPsStatusKind::Running ==> exists|j: int|
                0 <= j < old(store)@.processes.len()
                    && (#[trigger] old(store)@.processes[j]).kind_key == old(store)@.statuses[i].key && old(store)@.processes[j].running && old(store)@.processes[j].key != pk@,
    ensures
        final(store)@.inv(),
        runtime is Failure ==> r is Err && r->Err_0.kind == ErrorKind::Runtime && final(store)@ == old(store)@,
        !(runtime is Failure) ==> r is Ok && final(store)@ == (StoreView {
            processes: old(store)@.processes.filter(crate::store::proc_key_other(pk@)),
            ..old(store)@
        }),
{
    match runtime {
        RuntimeResult::Failure(msg) => Err(ApiError::new(ErrorKind::Runtime, msg)),
        _ => {
            store.del_process_row(pk);
            Ok(())
        },
    }
}

/// Build the lifecycle event of an object, by its kind.  A cargo or a
/// machine must exist for its key; a job additionally has its update
/// instant moved, since jobs record their last action inline.  Fails with
/// `NotFound` when the object does not exist, leaving the store unchanged.
pub fn emit_for(
    store: &mut Store,
    kind: ProcessKind,
    kind_key: &str,
    action: NativeEventAction,
    now: i64,
) -> (r: Result<Event, ApiError>)
    requires
        old(store)@.inv(),
    ensures
        final(store)@.inv(),
        r is Err ==> final(store)@ == old(store)@ && r->Err_0.kind == ErrorKind::NotFound,
        r is Ok ==> r->Ok_0@ == (EventView {
            kind: spec_event_kind(kind),
            action,
            key: kind_key@,
        }),
        kind is Cargo ==> ((r is Ok <==> crate::store::has_cargo(
            old(store)@.cargoes,
            kind_key@,
        )) && final(store)@ == old(store)@),
        kind is Vm ==> ((r is Ok <==> crate::store::has_vm(old(store)@.vms, kind_key@))
            && final(store)@ == old(store)@),
        kind is Job ==> (r is Ok <==> exists|i: int|
            0 <= i < old(store)@.jobs.len() && (#[trigger] old(store)@.jobs[i]).key
                == kind_key@),
        kind is Job && r is Ok ==> exists|i: int|
            0 <= i < old(store)@.jobs.len() && (#[trigger] old(store)@.jobs[i]).key
                == kind_key@ && final(store)@ == (StoreView {
                jobs: old(store)@.jobs.update(
                    i,
                    crate::models::JobDbView { updated_at: now, ..old(store)@.jobs[i] },
                ),
                ..old(store)@
            }),
{
    match kind {
        ProcessKind::Cargo => {
            if let Err(e) = store.read_cargo(kind_key) {
                return Err(e);
            }
        },
        ProcessKind::Vm => {
            if let Err(e) = store.read_vm(kind_key) {
                return Err(e);
            }
        },
        ProcessKind::Job => {
            if let Err(e) = store.touch_job(kind_key, now) {
                return Err(e);
            }
        },
    }
    Ok(
        Event {
            kind: event_kind_of(kind),
            action,
            key: kind_key.to_owned(),
        },
    )
}

/// The reconciliation plan of an object's containers against its target
/// count.
pub struct ReplicationPlan {
    /// How many containers to create.
    pub create_count: u64,
    /// The container keys to remove, oldest first.
    pub remove_keys: Vec<String>,
}

/// Whether a position sequence holds an index.
pub open spec fn holds_index(r: Seq<usize>, i: int) -> bool {
    exists|k: int| 0 <= k < r.len() && r[k] == i
}

/// Whether a key names one of the processes.
pub open spec fn names_a_process(k: Seq<char>, processes: Seq<ProcessDbView>) -> bool {
    exists|i: int| 0 <= i < processes.len() && (#[trigger] processes[i]).key == k
}

/// Plan the reconciliation of an object's containers against its target
/// count: when containers are missing the difference is created, and when
/// there is a surplus, exactly the surplus is removed, choosing the oldest
/// by creation instant: every container planned for removal is no younger
/// than any kept one.
#[verifier::rlimit(100)]
#[verifier::spinoff_prover]
pub fn replication_plan(processes: &Vec<ProcessDb>, target: u64) -> (r: ReplicationPlan)
    requires
        crate::store::unique_by(
            processes@.map_values(|p: ProcessDb| p@),
            |p: ProcessDbView| p.key,
        ),
    ensures
        processes@.len() >= target ==> r.create_count == 0 && r.remove_keys@.len()
            == processes@.len() - target,
        processes@.len() < target ==> r.create_count == target - processes@.len()
            && r.remove_keys@.len() == 0,
        forall|m: int|
            0 <= m < r.remove_keys@.len() ==> names_a_process(
                (#[trigger] r.remove_keys@[m])@,
                processes@.map_values(|p: ProcessDb| p@),
            ),
        forall|m: int, n2: int|
            0 <= m < n2 < r.remove_keys@.len() ==> (#[trigger] r.remove_keys@[m])@ != (
            #[trigger] r.remove_keys@[n2])@,
        forall|i: int, j: int|
            0 <= i < processes@.len() && 0 <= j < processes@.len()
                && crate::generic::seq_contains_str(
                crate::container::strs_view(r.remove_keys),
                (#[trigger] processes@[i])@.key,
            ) && !crate::generic::seq_contains_str(
                crate::container::strs_view(r.remove_keys),
                (#[trigger] processes@[j])@.key,
            ) ==> processes@[i]@.created_at <= processes@[j]@.created_at,
{
    let ghost pv = processes@.map_values(|p: ProcessDb| p@);
    let n = processes.len();
    if (n as u64) < target {
        let plan = ReplicationPlan {
            create_count: target - (n as u64),
            remove_keys: Vec::new(),
        };
        proof {
            assert(crate::container::strs_view(plan.remove_keys).len() == 0);
        }
        return plan;
    }
    let keep = target as usize;
    let mut remaining: Vec<usize> = Vec::new();
    let mut i: usize = 0;
    while i < n
        invariant
            0 <= i <= n,
            remaining@.len() == i,
            forall|k: int| 0 <= k < i ==> (#[trigger] remaining@[k]) == k,
        decreases n - i,
    {
        remaining.push(i);
        i += 1;
    }
    let mut keys: Vec<String> = Vec::new();
    proof {
        assert forall|q: int| 0 <= q < n implies holds_index(remaining@, q) by {
            assert(remaining@[q] == q);
        }
        assert(crate::container::strs_view(keys).len() == 0);
    }
    while remaining.len() > keep
        invariant
            n == processes@.len(),
            pv == processes@.map_values(|p: ProcessDb| p@),
            crate::store::unique_by(pv, |p: ProcessDbView| p.key),
            keep <= n,
            remaining@.len() + keys@.len() == n,
            remaining@.len() >= keep,
            forall|k: int| 0 <= k < remaining@.len() ==> 0 <= (#[trigger] remaining@[k]) < n,
            forall|a: int, b: int|
                0 <= a < b < remaining@.len() ==> (#[trigger] remaining@[a]) != (
                #[trigger] remaining@[b]),
            forall|q: int|
                0 <= q < n ==> (crate::generic::seq_contains_str(
                    crate::container::strs_view(keys),
                    (#[trigger] pv[q]).key,
                ) <==> !holds_index(remaining@, q)),
            forall|q: int, k: int|
                0 <= q < n && crate::generic::seq_contains_str(
                    crate::container::strs_view(keys),
                    (#[trigger] pv[q]).key,
                ) && 0 <= k < remaining@.len() ==> pv[q].created_at <= pv[(
                #[trigger] remaining@[k]) as int].created_at,
            forall|m: int, n2: int|
                0 <= m < n2 < keys@.len() ==> (#[trigger] keys@[m])@ != (
                #[trigger] keys@[n2])@,
            forall|m: int|
                0 <= m < keys@.len() ==> exists|q: int|
                    0 <= q < n && (#[trigger] keys@[m])@ == pv[q].key,
        decreases remaining@.len(),
    {
        let mut best: usize = 0;
        let mut pos: usize = 1;
        while pos < remaining.len()
            invariant
                n == processes@.len(),
                pv == processes@.map_values(|p: ProcessDb| p@),
                remaining@.len() > 0,
                forall|k: int|
                    0 <= k < remaining@.len() ==> 0 <= (#[trigger] remaining@[k]) < n,
                0 <= best < remaining@.len(),
                1 <= pos <= remaining@.len(),
                forall|q: int|
                    0 <= q < pos ==> pv[remaining@[best as int] as int].created_at <= pv[(
                    #[trigger] remaining@[q]) as int].created_at,
            decreases remaining@.len() - pos,
        {
            if processes[remaining[pos]].created_at
                < processes[remaining[best]].created_at {
                best = pos;
            }
            pos += 1;
        }
        let bi = remaining[best];
        let ghost pre_remaining = remaining@;
        let ghost pre_keys_view = crate::container::strs_view(keys);
        proof {
            assert(pv[bi as int].key == processes@[bi as int]@.key);
            // The chosen index is still unplanned, so its key is fresh.
            assert(holds_index(pre_remaining, bi as int)) by {
                assert(pre_remaining[best as int] == bi);
            }
            assert(!crate::generic::seq_contains_str(pre_keys_view, pv[bi as int].key));
        }
        keys.push(processes[bi].key.clone());
        let _ = remaining.remove(best);
        proof {
            let post_keys_view = crate::container::strs_view(keys);
            assert(post_keys_view =~= pre_keys_view.push(pv[bi as int].key));
            // Removal keeps the earlier positions and shifts the later ones.
            assert(remaining@ == pre_remaining.remove(best as int));
            assert forall|q: int| 0 <= q < n implies (crate::generic::seq_contains_str(
                post_keys_view,
                (#[trigger] pv[q]).key,
            ) <==> !holds_index(remaining@, q)) by {
                if q == bi as int {
                    assert(crate::generic::seq_contains_str(post_keys_view, pv[q].key)) by {
                        assert(post_keys_view[post_keys_view.len() - 1] == pv[q].key);
                    }
                    assert(!holds_index(remaining@, q)) by {
                        if holds_index(remaining@, q) {
                            let k = choose|k: int|
                                0 <= k < remaining@.len() && remaining@[k] == q;
                            if k < best as int {
                                assert(pre_remaining[k] == q);
                                assert(pre_remaining[best as int] == q);
                                assert(false);
                            } else {
                                assert(pre_remaining[k + 1] == q);
                                assert(pre_remaining[best as int] == q);
                                assert(false);
                            }
                        }
                    }
                } else {
                    assert(pv[q].key != pv[bi as int].key);
                    assert(crate::generic::seq_contains_str(post_keys_view, pv[q].key)
                        == crate::generic::seq_contains_str(pre_keys_view, pv[q].key)) by {
                        if crate::generic::seq_contains_str(pre_keys_view, pv[q].key) {
                            let m = choose|m: int|
                                0 <= m < pre_keys_view.len() && pre_keys_view[m] == pv[
                                    q
                                ].key;
                            assert(post_keys_view[m] == pv[q].key);
                        }
                        if crate::generic::seq_contains_str(post_keys_view, pv[q].key) {
                            let m = choose|m: int|
                                0 <= m < post_keys_view.len() && post_keys_view[m] == pv[
                                    q
                                ].key;
                            assert(m < pre_keys_view.len());
                            assert(pre_keys_view[m] == pv[q].key);
                        }
                    }
                    assert(holds_index(remaining@, q) == holds_index(pre_remaining, q)) by {
                        if holds_index(pre_remaining, q) {
                            let k = choose|k: int|
                                0 <= k < pre_remaining.len() && pre_remaining[k] == q;
                            assert(k != best as int);
                            if k < best as int {
                                assert(remaining@[k] == q);
                            } else {
                                assert(remaining@[k - 1] == q);
                            }
                        }
                        if holds_index(remaining@, q) {
                            let k = choose|k: int|
                                0 <= k < remaining@.len() && remaining@[k] == q;
                            if k < best as int {
                                assert(pre_remaining[k] == q);
                            } else {
                                assert(pre_remaining[k + 1] == q);
                            }
                        }
                    }
                }
            }
            assert forall|a: int, b: int|
                0 <= a < b < remaining@.len() implies (#[trigger] remaining@[a]) != (
            #[trigger] remaining@[b]) by {
                if a < best as int {
                    assert(remaining@[a] == pre_remaining[a]);
                } else {
                    assert(remaining@[a] == pre_remaining[a + 1]);
                }
                if b < best as int {
                    assert(remaining@[b] == pre_remaining[b]);
                } else {
                    assert(remaining@[b] == pre_remaining[b + 1]);
                }
            }
            assert forall|q: int, k: int|
                0 <= q < n && crate::generic::seq_contains_str(
                    post_keys_view,
                    (#[trigger] pv[q]).key,
                ) && 0 <= k < remaining@.len() implies pv[q].created_at <= pv[(
            #[trigger] remaining@[k]) as int].created_at by {
                let kept = if k < best as int {
                    k
                } else {
                    k + 1
                };
                assert(remaining@[k] == pre_remaining[kept]);
                if q == bi as int {
                    assert(pv[bi as int].created_at <= pv[
                        pre_remaining[kept] as int
                    ].created_at);
                } else {
                    assert(crate::generic::seq_contains_str(pre_keys_view, pv[q].key)) by {
                        let m = choose|m: int|
                            0 <= m < post_keys_view.len() && post_keys_view[m] == pv[q].key;
                        assert(pv[q].key != pv[bi as int].key);
                        assert(m < pre_keys_view.len());
                        assert(pre_keys_view[m] == pv[q].key);
                    }
                }
            }
            assert forall|m: int, n2: int|
                0 <= m < n2 < keys@.len() implies (#[trigger] keys@[m])@ != (
            #[trigger] keys@[n2])@ by {
                if n2 == keys@.len() - 1 {
                    assert(keys@[n2]@ == pv[bi as int].key);
                    assert(pre_keys_view[m] == keys@[m]@);
                    if keys@[m]@ == pv[bi as int].key {
                        assert(crate::generic::seq_contains_str(
                            pre_keys_view,
                            pv[bi as int].key,
                        ));
                        assert(false);
                    }
                }
            }
        }
    }
    proof {
        assert(remaining@.len() == keep);
        assert(keys@.len() == n - keep);
        assert forall|i2: int, j: int|
            0 <= i2 < pv.len() && 0 <= j < pv.len() && crate::generic::seq_contains_str(
                crate::container::strs_view(keys),
                (#[trigger] pv[i2]).key,
            ) && !crate::generic::seq_contains_str(
                crate::container::strs_view(keys),
                (#[trigger] pv[j]).key,
            ) implies pv[i2].created_at <= pv[j].created_at by {
            assert(holds_index(remaining@, j));
            let k = choose|k: int| 0 <= k < remaining@.len() && remaining@[k] == j;
            assert(pv[i2].created_at <= pv[remaining@[k] as int].created_at);
        }
        assert forall|i2: int, j: int|
            0 <= i2 < processes@.len() && 0 <= j < processes@.len()
                && crate::generic::seq_contains_str(
                crate::container::strs_view(keys),
                (#[trigger] processes@[i2])@.key,
            ) && !crate::generic::seq_contains_str(
                crate::container::strs_view(keys),
                (#[trigger] processes@[j])@.key,
            ) implies processes@[i2]@.created_at <= processes@[j]@.created_at by {
            assert(pv[i2] == processes@[i2]@);
            assert(pv[j] == processes@[j]@);
        }
    }
    let plan = ReplicationPlan { create_count: 0, remove_keys: keys };
    proof {
        assert forall|m: int| 0 <= m < plan.remove_keys@.len() implies names_a_process(
            (#[trigger] plan.remove_keys@[m])@,
            pv,
        ) by {
            let kv = plan.remove_keys@[m];
            assert(exists|q: int| 0 <= q < n && kv@ == pv[q].key);
            let q = choose|q: int| 0 <= q < n && kv@ == pv[q].key;
            assert(pv[q].key == kv@);
        }
    }
    plan
}

/// The number of processes the runtime reports as running.
pub fn count_running(processes: &Vec<ProcessDb>) -> (r: usize)
    ensures
        r == processes@.map_values(|p: ProcessDb| p@).filter(
            |p: ProcessDbView| p.running,
        ).len(),
{
    broadcast use vstd::seq_lib::group_filter_ensures;

    let mut n: usize = 0;
    let mut i: usize = 0;
    while i < processes.len()
        invariant
            0 <= i <= processes@.len(),
            n == processes@.map_values(|p: ProcessDb| p@).take(i as int).filter(
                |p: ProcessDbView| p.running,
            ).len(),
            n <= i,
        decreases processes@.len() - i,
    {
        proof {
            lemma_take_succ(processes@.map_values(|p: ProcessDb| p@), i as int);
            lemma_filter_push(
                processes@.map_values(|p: ProcessDb| p@).take(i as int),
                |p: ProcessDbView| p.running,
                processes@.map_values(|p: ProcessDb| p@)[i as int],
            );
        }
        if processes[i].running {
            n += 1;
        }
        i += 1;
    }
    proof {
        let all = processes@.map_values(|p: ProcessDb| p@);
        assert(all.take(processes@.len() as int) =~= all);
    }
    n
}

} // verus!

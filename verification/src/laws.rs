//! The general guarantees of the library, each stated once in full and
//! proved from what the operations' contracts and the store invariant say.

use vstd::prelude::*;

use crate::models::{CargoDbView, ObjPsStatusDbView, ProcessDbView, ResourceDbView, VmDbView};
use crate::specs::SpecDbView;
use crate::status::ObjPsStatusKind;
use crate::store::{
    has_running_process, spec_refs_cargo, spec_refs_resource, spec_refs_vm, StoreView,
};

verus! {

/// Every cargo, machine and resource of a well-formed store points at an
/// existing spec revision whose owner key and kind are its own.
pub proof fn lemma_spec_refs_hold(v: StoreView)
    requires
        v.inv(),
    ensures
        forall|i: int|
            0 <= i < v.cargoes.len() ==> spec_refs_cargo(v.specs, #[trigger] v.cargoes[i]),
        forall|i: int| 0 <= i < v.vms.len() ==> spec_refs_vm(v.specs, #[trigger] v.vms[i]),
        forall|i: int|
            0 <= i < v.resources.len() ==> spec_refs_resource(
                v.specs,
                #[trigger] v.resources[i],
            ),
{
}

/// Appending a revision never rewrites the history: every revision held
/// before the append is still held, at its place, afterwards.  Every
/// operation that writes a revision promises exactly this shape of change
/// until the owning object is deleted.
pub proof fn lemma_spec_append_keeps_history(specs: Seq<SpecDbView>, row: SpecDbView)
    ensures
        forall|i: int| 0 <= i < specs.len() ==> #[trigger] specs.push(row)[i] == specs[i],
        specs.push(row).len() == specs.len() + 1,
{
}

/// An object a well-formed store observes as `Running` has at least one
/// process row the runtime reports as running.
pub proof fn lemma_running_is_backed(v: StoreView)
    requires
        v.inv(),
    ensures
        forall|i: int|
            0 <= i < v.statuses.len() && (#[trigger] v.statuses[i]).status.actual
                == ObjPsStatusKind::Running ==> has_running_process(
                v.processes,
                v.statuses[i].key,
            ),
{
}

/// Applying the same document twice leaves the same set of live keys:
/// application unites the live keys with the document's keys, and uniting
/// twice is uniting once.
pub proof fn lemma_apply_twice_same_keys(before: Set<Seq<char>>, doc_keys: Set<Seq<char>>)
    ensures
        before.union(doc_keys).union(doc_keys) == before.union(doc_keys),
{
    assert(before.union(doc_keys).union(doc_keys) =~= before.union(doc_keys));
}

/// Applying the same document twice also leaves the namespace table as
/// the first application left it: the second application finds the named
/// namespace present and reuses it untouched.
pub proof fn lemma_apply_twice_same_namespaces(
    after_first: Seq<crate::models::NamespaceDbView>,
    name: Seq<char>,
    now: i64,
)
    requires
        crate::store::has_namespace(after_first, name),
    ensures
        crate::state::spec_namespace_effect(after_first, after_first, Some(name), now),
{
}

/// Reverting a document right after applying it removes exactly what the
/// application created: when none of the document's keys was live
/// beforehand, the live keys come back to what they were, so every object
/// present beforehand remains.
pub proof fn lemma_revert_undoes_apply(before: Set<Seq<char>>, doc_keys: Set<Seq<char>>)
    requires
        before.disjoint(doc_keys),
    ensures
        before.union(doc_keys).difference(doc_keys) == before,
{
    assert(before.union(doc_keys).difference(doc_keys) =~= before);
}

/// The deployable keys of a document never exceed its named keys, so a
/// revert with the full named set removes every key an apply could have
/// created.
pub proof fn lemma_ok_keys_subset(
    vms: Seq<VmDbView>,
    ns: Seq<char>,
    items: Seq<crate::cargo_spec::CargoSpecPartialView>,
)
    ensures
        crate::state::ok_cargo_doc_keys(vms, ns, items).subset_of(
            crate::state::cargo_doc_keys(ns, items),
        ),
{
    assert forall|k: Seq<char>|
        crate::state::ok_cargo_doc_keys(vms, ns, items).contains(
            k,
        ) implies crate::state::cargo_doc_keys(ns, items).contains(k) by {
        let i = choose|i: int|
            0 <= i < items.len() && k == crate::text::spec_gen_key(
                ns,
                (#[trigger] items[i]).name,
            );
        assert(crate::state::cargo_doc_keys(ns, items).contains(k));
    }
}

} // verus!

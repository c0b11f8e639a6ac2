//! The typed store: every table of the daemon held as rows in memory, with
//! the structural invariant that ties them together.
//!
//! The invariant carries the load-bearing guarantees of the system: keys are
//! unique per table; every cargo, machine and resource points at an existing
//! spec revision of its own kind; and an object observed as `Running` has at
//! least one running process row.  Every operation preserves it, and the
//! spec table is only ever appended to until an owning object is deleted.

use vstd::prelude::*;

use crate::cargo_spec::{CargoSpecPartial, CargoSpecUpdate, merge_update};
use crate::err::{ApiError, ErrorKind};
use crate::models::{
    CargoDb, CargoDbView, NamespaceDb, NamespaceDbView, NodeDb, NodeDbView, ObjPsStatusDb,
    ObjPsStatusDbView, ProcessDb, ProcessDbView, ResourceDb, ResourceDbView, SecretDb,
    SecretDbView, VmDb, VmDbView, JobDb, JobDbView,
};
use crate::specs::{SpecData, SpecDataView, SpecDb, SpecDbView};
use crate::status::{ObjPsStatus, ObjPsStatusKind};
use crate::text::gen_key;
use crate::vm_spec::VmSpecPartial;

verus! {

/// Whether a projection of the elements never repeats.
pub open spec fn unique_by<A>(s: Seq<A>, key: spec_fn(A) -> Seq<char>) -> bool {
    forall|i: int, j: int| 0 <= i < j < s.len() ==> key(s[i]) != key(s[j])
}

/// Whether a spec revision is the one a cargo row points at.
pub open spec fn spec_matches_cargo(s: SpecDbView, c: CargoDbView) -> bool {
    s.key == c.spec_key && s.kind_key == c.key && s.kind_name == "Cargo"@ && s.data is Cargo
}

/// Whether the spec table holds the revision a cargo row points at.
pub open spec fn spec_refs_cargo(specs: Seq<SpecDbView>, c: CargoDbView) -> bool {
    exists|i: int| 0 <= i < specs.len() && spec_matches_cargo(#[trigger] specs[i], c)
}

/// Whether a spec revision is the one a machine row points at.
pub open spec fn spec_matches_vm(s: SpecDbView, v: VmDbView) -> bool {
    s.key == v.spec_key && s.kind_key == v.key && s.kind_name == "Vm"@ && s.data is Vm
}

/// Whether the spec table holds the revision a machine row points at.
pub open spec fn spec_refs_vm(specs: Seq<SpecDbView>, v: VmDbView) -> bool {
    exists|i: int| 0 <= i < specs.len() && spec_matches_vm(#[trigger] specs[i], v)
}

/// Whether a spec revision is the one a resource row points at.
pub open spec fn spec_matches_resource(s: SpecDbView, r: ResourceDbView) -> bool {
    s.key == r.spec_key && s.kind_key == r.key && s.kind_name == "Resource"@
}

/// Whether the spec table holds the revision a resource row points at.
pub open spec fn spec_refs_resource(specs: Seq<SpecDbView>, r: ResourceDbView) -> bool {
    exists|i: int| 0 <= i < specs.len() && spec_matches_resource(#[trigger] specs[i], r)
}

/// Whether a namespace row with the name exists.
pub open spec fn has_namespace(namespaces: Seq<NamespaceDbView>, name: Seq<char>) -> bool {
    exists|i: int| 0 <= i < namespaces.len() && (#[trigger] namespaces[i]).name == name
}

/// Whether a status row for the key exists.
pub open spec fn has_status(statuses: Seq<ObjPsStatusDbView>, key: Seq<char>) -> bool {
    exists|i: int| 0 <= i < statuses.len() && (#[trigger] statuses[i]).key == key
}

/// Whether a running process owned by the key exists.
pub open spec fn has_running_process(processes: Seq<ProcessDbView>, key: Seq<char>) -> bool {
    exists|i: int|
        0 <= i < processes.len() && (#[trigger] processes[i]).kind_key == key
            && processes[i].running
}

/// View of the whole store.
#[verifier::ext_equal]
pub ghost struct StoreView {
    pub specs: Seq<SpecDbView>,
    pub namespaces: Seq<NamespaceDbView>,
    pub cargoes: Seq<CargoDbView>,
    pub vms: Seq<VmDbView>,
    pub resources: Seq<ResourceDbView>,
    pub processes: Seq<ProcessDbView>,
    pub nodes: Seq<NodeDbView>,
    pub secrets: Seq<SecretDbView>,
    pub statuses: Seq<ObjPsStatusDbView>,
    pub jobs: Seq<JobDbView>,
}

impl StoreView {
    /// The structural invariant of the store.
    pub open spec fn inv(self) -> bool {
        &&& unique_by(self.namespaces, |n: NamespaceDbView| n.name)
        &&& unique_by(self.cargoes, |c: CargoDbView| c.key)
        &&& unique_by(self.vms, |v: VmDbView| v.key)
        &&& unique_by(self.resources, |r: ResourceDbView| r.key)
        &&& unique_by(self.processes, |p: ProcessDbView| p.key)
        &&& unique_by(self.secrets, |s: SecretDbView| s.key)
        &&& unique_by(self.statuses, |s: ObjPsStatusDbView| s.key)
        &&& unique_by(self.nodes, |n: NodeDbView| n.name)
        &&& unique_by(self.jobs, |j: JobDbView| j.key)
        &&& forall|i: int|
            0 <= i < self.cargoes.len() ==> spec_refs_cargo(
                self.specs,
                #[trigger] self.cargoes[i],
            )
        &&& forall|i: int|
            0 <= i < self.vms.len() ==> spec_refs_vm(self.specs, #[trigger] self.vms[i])
        &&& forall|i: int|
            0 <= i < self.resources.len() ==> spec_refs_resource(
                self.specs,
                #[trigger] self.resources[i],
            )
        &&& forall|i: int|
            0 <= i < self.cargoes.len() ==> has_status(
                self.statuses,
                (#[trigger] self.cargoes[i]).key,
            )
        &&& forall|i: int|
            0 <= i < self.vms.len() ==> has_status(self.statuses, (#[trigger] self.vms[i]).key)
        &&& forall|i: int|
            0 <= i < self.statuses.len() && (#[trigger] self.statuses[i]).status.actual
                == ObjPsStatusKind::Running ==> has_running_process(
                self.processes,
                self.statuses[i].key,
            )
        &&& forall|i: int, j: int|
            0 <= i < self.cargoes.len() && 0 <= j < self.vms.len()
                ==> (#[trigger] self.cargoes[i]).key != (#[trigger] self.vms[j]).key
    }

    /// The keys of the live cargoes.
    pub open spec fn cargo_keys(self) -> Set<Seq<char>> {
        cargo_key_set(self.cargoes)
    }

    /// The keys of the live resources.
    pub open spec fn resource_keys(self) -> Set<Seq<char>> {
        resource_key_set(self.resources)
    }
}

/// The typed store.
pub struct Store {
    pub specs: Vec<SpecDb>,
    pub namespaces: Vec<NamespaceDb>,
    pub cargoes: Vec<CargoDb>,
    pub vms: Vec<VmDb>,
    pub resources: Vec<ResourceDb>,
    pub processes: Vec<ProcessDb>,
    pub nodes: Vec<NodeDb>,
    pub secrets: Vec<SecretDb>,
    pub statuses: Vec<ObjPsStatusDb>,
    pub jobs: Vec<JobDb>,
}

impl View for Store {
    type V = StoreView;

    open spec fn view(&self) -> StoreView {
        StoreView {
            specs: self.specs@.map_values(|s: SpecDb| s@),
            namespaces: self.namespaces@.map_values(|n: NamespaceDb| n@),
            cargoes: self.cargoes@.map_values(|c: CargoDb| c@),
            vms: self.vms@.map_values(|v: VmDb| v@),
            resources: self.resources@.map_values(|r: ResourceDb| r@),
            processes: self.processes@.map_values(|p: ProcessDb| p@),
            nodes: self.nodes@.map_values(|n: NodeDb| n@),
            secrets: self.secrets@.map_values(|s: SecretDb| s@),
            statuses: self.statuses@.map_values(|s: ObjPsStatusDb| s@),
            jobs: self.jobs@.map_values(|j: JobDb| j@),
        }
    }
}

impl Store {
    /// An empty store.
    pub fn new() -> (r: Store)
        ensures
            r@.inv(),
            r@.specs.len() == 0,
            r@.namespaces.len() == 0,
            r@.cargoes.len() == 0,
            r@.vms.len() == 0,
            r@.resources.len() == 0,
            r@.processes.len() == 0,
            r@.nodes.len() == 0,
            r@.secrets.len() == 0,
            r@.statuses.len() == 0,
            r@.jobs.len() == 0,
    {
        Store {
            specs: Vec::new(),
            namespaces: Vec::new(),
            cargoes: Vec::new(),
            vms: Vec::new(),
            resources: Vec::new(),
            processes: Vec::new(),
            nodes: Vec::new(),
            secrets: Vec::new(),
            statuses: Vec::new(),
            jobs: Vec::new(),
        }
    }

    /// Index of the namespace row with the name.
    fn find_namespace(&self, name: &str) -> (r: Option<usize>)
        ensures
            r is Some ==> 0 <= r->0 < self@.namespaces.len() && self@.namespaces[
                r->0 as int
            ].name == name@,
            r is None ==> forall|i: int|
                0 <= i < self@.namespaces.len() ==> (#[trigger] self@.namespaces[i]).name
                    != name@,
    {
        let key = name.to_owned();
        let mut i: usize = 0;
        while i < self.namespaces.len()
            invariant
                0 <= i <= self@.namespaces.len(),
                key@ == name@,
                forall|j: int| 0 <= j < i ==> (#[trigger] self@.namespaces[j]).name != name@,
            decreases self@.namespaces.len() - i,
        {
            if self.namespaces[i].name.eq(&key) {
                assert(self@.namespaces[i as int].name == name@);
                return Some(i);
            }
            assert(self@.namespaces[i as int].name != name@);
            i += 1;
        }
        None
    }

    /// Whether the namespace exists.
    pub fn namespace_exists(&self, name: &str) -> (r: bool)
        ensures
            r == has_namespace(self@.namespaces, name@),
    {
        self.find_namespace(name).is_some()
    }

    /// Create a namespace.  Fails with `AlreadyExists` when a namespace of
    /// the name is present, leaving the store unchanged; otherwise the one
    /// new row is appended.
    pub fn register_namespace(&mut self, name: &str, now: i64) -> (r: Result<(), ApiError>)
        requires
            old(self)@.inv(),
        ensures
            final(self)@.inv(),
            r is Ok <==> !has_namespace(old(self)@.namespaces, name@),
            r is Err ==> final(self)@ == old(self)@ && r->Err_0.kind
                == ErrorKind::AlreadyExists,
            r is Ok ==> final(self)@ == (StoreView {
                namespaces: old(self)@.namespaces.push(
                    NamespaceDbView { name: name@, created_at: now },
                ),
                ..old(self)@
            }),
    {
        if self.find_namespace(name).is_some() {
            return Err(
                ApiError::new(
                    ErrorKind::AlreadyExists,
                    String::from_str("namespace already exists"),
                ),
            );
        }
        self.namespaces.push(NamespaceDb { name: name.to_owned(), created_at: now });
        proof {
            assert(self@ =~= (StoreView {
                namespaces: old(self)@.namespaces.push(
                    NamespaceDbView { name: name@, created_at: now },
                ),
                ..old(self)@
            }));
        }
        Ok(())
    }

    /// Create the reserved namespace used when none is named, when it is not
    /// yet present.
    pub fn ensure_global_namespace(&mut self, now: i64)
        requires
            old(self)@.inv(),
        ensures
            final(self)@.inv(),
            has_namespace(final(self)@.namespaces, "global"@),
            has_namespace(old(self)@.namespaces, "global"@) ==> final(self)@ == old(self)@,
            !has_namespace(old(self)@.namespaces, "global"@) ==> final(self)@ == (StoreView {
                namespaces: old(self)@.namespaces.push(
                    NamespaceDbView { name: "global"@, created_at: now },
                ),
                ..old(self)@
            }),
            final(self)@.specs == old(self)@.specs,
            final(self)@.cargoes == old(self)@.cargoes,
            final(self)@.vms == old(self)@.vms,
            final(self)@.resources == old(self)@.resources,
            final(self)@.processes == old(self)@.processes,
            final(self)@.statuses == old(self)@.statuses,
            final(self)@.secrets == old(self)@.secrets,
    {
        let r = self.register_namespace("global", now);
        proof {
            if r is Ok {
                assert(self@.namespaces[self@.namespaces.len() - 1].name == "global"@);
            }
        }
    }
}

/// The status held for a key, when one is held.
pub open spec fn spec_status_of(statuses: Seq<ObjPsStatusDbView>, key: Seq<char>) -> Option<
    ObjPsStatus,
> {
    if has_status(statuses, key) {
        let i = choose|i: int|
            0 <= i < statuses.len() && (#[trigger] statuses[i]).key == key;
        Some(statuses[i].status)
    } else {
        None
    }
}

/// Whether the key's object is already on its way to running or there: its
/// observation is `Starting` or `Running`.  A start request on such an
/// object short-circuits.
pub open spec fn spec_obj_active(statuses: Seq<ObjPsStatusDbView>, key: Seq<char>) -> bool {
    has_status(statuses, key) && (spec_status_of(statuses, key)->0.actual
        == ObjPsStatusKind::Running || spec_status_of(statuses, key)->0.actual
        == ObjPsStatusKind::Starting)
}

impl Store {
    /// Index of the status row with the key.
    fn find_status(&self, key: &str) -> (r: Option<usize>)
        ensures
            r is Some ==> 0 <= r->0 < self@.statuses.len() && self@.statuses[
                r->0 as int
            ].key == key@,
            r is None ==> forall|i: int|
                0 <= i < self@.statuses.len() ==> (#[trigger] self@.statuses[i]).key != key@,
    {
        let k = key.to_owned();
        let mut i: usize = 0;
        while i < self.statuses.len()
            invariant
                0 <= i <= self@.statuses.len(),
                k@ == key@,
                forall|j: int| 0 <= j < i ==> (#[trigger] self@.statuses[j]).key != key@,
            decreases self@.statuses.len() - i,
        {
            if self.statuses[i].key.eq(&k) {
                assert(self@.statuses[i as int].key == key@);
                return Some(i);
            }
            assert(self@.statuses[i as int].key != key@);
            i += 1;
        }
        None
    }

    /// Read the status of an object, failing with `NotFound` when no status
    /// row is held for the key.
    pub fn read_status(&self, key: &str) -> (r: Result<ObjPsStatus, ApiError>)
        requires
            self@.inv(),
        ensures
            r is Ok <==> has_status(self@.statuses, key@),
            r is Ok ==> Some(r->Ok_0) == spec_status_of(self@.statuses, key@),
            r is Err ==> r->Err_0.kind == ErrorKind::NotFound,
    {
        match self.find_status(key) {
            Some(i) => {
                let st = self.statuses[i].status;
                proof {
                    let j = choose|j: int|
                        0 <= j < self@.statuses.len() && (#[trigger] self@.statuses[j]).key
                            == key@;
                    assert(j == i as int);
                }
                Ok(st)
            },
            None => Err(
                ApiError::new(ErrorKind::NotFound, String::from_str("status not found")),
            ),
        }
    }

    /// Write the status of an object: an existing row for the key is
    /// replaced, otherwise a row is appended.  Every other table keeps its
    /// rows; every other key keeps its status.
    pub fn upsert_status(&mut self, key: &str, status: ObjPsStatus)
        requires
            old(self)@.inv(),
            status.actual == ObjPsStatusKind::Running ==> has_running_process(
                old(self)@.processes,
                key@,
            ),
        ensures
            final(self)@.inv(),
            final(self)@.specs == old(self)@.specs,
            final(self)@.namespaces == old(self)@.namespaces,
            final(self)@.cargoes == old(self)@.cargoes,
            final(self)@.vms == old(self)@.vms,
            final(self)@.resources == old(self)@.resources,
            final(self)@.processes == old(self)@.processes,
            final(self)@.nodes == old(self)@.nodes,
            final(self)@.secrets == old(self)@.secrets,
            final(self)@.jobs == old(self)@.jobs,
            spec_status_of(final(self)@.statuses, key@) == Some(status),
            forall|k: Seq<char>|
                k != key@ ==> #[trigger] spec_status_of(final(self)@.statuses, k)
                    == spec_status_of(old(self)@.statuses, k),
            forall|i: int|
                0 <= i < final(self)@.statuses.len()
                    ==> ((#[trigger] final(self)@.statuses[i]).key == key@
                    && final(self)@.statuses[i].status == status)
                    || old(self)@.statuses.contains(final(self)@.statuses[i]),
    {
        let row = ObjPsStatusDb { key: key.to_owned(), status };
        let found = self.find_status(key);
        match found {
            Some(i) => {
                self.statuses.set(i, row);
                proof {
                    let pre = old(self)@.statuses;
                    let post = self@.statuses;
                    assert(post =~= pre.update(
                        i as int,
                        ObjPsStatusDbView { key: key@, status },
                    ));
                    lemma_status_tables_agree(old(self)@, self@, i as int, key@, status);
                    assert forall|k: Seq<char>| has_status(pre, k) implies has_status(
                        post,
                        k,
                    ) by {
                        let j = choose|j: int|
                            0 <= j < pre.len() && (#[trigger] pre[j]).key == k;
                        assert(post[j].key == k);
                    }
                }
            },
            None => {
                self.statuses.push(row);
                proof {
                    let pre = old(self)@.statuses;
                    let post = self@.statuses;
                    assert(post =~= pre.push(ObjPsStatusDbView { key: key@, status }));
                    assert forall|k: Seq<char>| k != key@ implies #[trigger] spec_status_of(
                        post,
                        k,
                    ) == spec_status_of(pre, k) by {
                        assert forall|i: int|
                            0 <= i < pre.len() && (#[trigger] pre[i]).key
                                == k implies post.contains(pre[i]) by {
                            assert(post[i] == pre[i]);
                        }
                        assert forall|i: int|
                            0 <= i < post.len() && (#[trigger] post[i]).key
                                == k implies pre.contains(post[i]) by {
                            assert(i < pre.len());
                            assert(post[i] == pre[i]);
                        }
                        assert(unique_by(post, |s: ObjPsStatusDbView| s.key));
                        lemma_status_of_frame(pre, post, k);
                    }
                    assert(post[post.len() - 1].key == key@);
                    assert(unique_by(post, |s: ObjPsStatusDbView| s.key));
                    let j = choose|j: int|
                        0 <= j < post.len() && (#[trigger] post[j]).key == key@;
                    assert(post[j].key == post[post.len() - 1].key);
                    assert(j == post.len() - 1);
                    assert(spec_status_of(post, key@) == Some(status));
                    assert forall|k: Seq<char>| has_status(pre, k) implies has_status(
                        post,
                        k,
                    ) by {
                        let m = choose|m: int|
                            0 <= m < pre.len() && (#[trigger] pre[m]).key == k;
                        assert(post[m].key == k);
                    }
                }
            },
        }
        proof {
            assert(self@ =~= (StoreView { statuses: self@.statuses, ..old(self)@ }));
        }
    }
}

/// Whether a cargo row with the key exists.
pub open spec fn has_cargo(cargoes: Seq<CargoDbView>, key: Seq<char>) -> bool {
    exists|i: int| 0 <= i < cargoes.len() && (#[trigger] cargoes[i]).key == key
}

/// Whether a machine row with the key exists.
pub open spec fn has_vm(vms: Seq<VmDbView>, key: Seq<char>) -> bool {
    exists|i: int| 0 <= i < vms.len() && (#[trigger] vms[i]).key == key
}

impl Store {
    /// Index of the cargo row with the key.
    fn find_cargo(&self, key: &str) -> (r: Option<usize>)
        ensures
            r is Some ==> 0 <= r->0 < self@.cargoes.len() && self@.cargoes[
                r->0 as int
            ].key == key@,
            r is None ==> forall|i: int|
                0 <= i < self@.cargoes.len() ==> (#[trigger] self@.cargoes[i]).key != key@,
    {
        let k = key.to_owned();
        let mut i: usize = 0;
        while i < self.cargoes.len()
            invariant
                0 <= i <= self@.cargoes.len(),
                k@ == key@,
                forall|j: int| 0 <= j < i ==> (#[trigger] self@.cargoes[j]).key != key@,
            decreases self@.cargoes.len() - i,
        {
            if self.cargoes[i].key.eq(&k) {
                assert(self@.cargoes[i as int].key == key@);
                return Some(i);
            }
            assert(self@.cargoes[i as int].key != key@);
            i += 1;
        }
        None
    }

    /// Index of the machine row with the key.
    fn find_vm(&self, key: &str) -> (r: Option<usize>)
        ensures
            r is Some ==> 0 <= r->0 < self@.vms.len() && self@.vms[r->0 as int].key == key@,
            r is None ==> forall|i: int|
                0 <= i < self@.vms.len() ==> (#[trigger] self@.vms[i]).key != key@,
    {
        let k = key.to_owned();
        let mut i: usize = 0;
        while i < self.vms.len()
            invariant
                0 <= i <= self@.vms.len(),
                k@ == key@,
                forall|j: int| 0 <= j < i ==> (#[trigger] self@.vms[j]).key != key@,
            decreases self@.vms.len() - i,
        {
            if self.vms[i].key.eq(&k) {
                assert(self@.vms[i as int].key == key@);
                return Some(i);
            }
            assert(self@.vms[i as int].key != key@);
            i += 1;
        }
        None
    }

    /// Read the cargo row with the key, failing with `NotFound` when the
    /// cargo does not exist.
    pub fn read_cargo(&self, key: &str) -> (r: Result<CargoDb, ApiError>)
        ensures
            r is Ok <==> has_cargo(self@.cargoes, key@),
            r is Ok ==> exists|i: int|
                0 <= i < self@.cargoes.len() && #[trigger] self@.cargoes[i] == r->Ok_0@
                    && r->Ok_0@.key == key@,
            r is Err ==> r->Err_0.kind == ErrorKind::NotFound,
    {
        match self.find_cargo(key) {
            Some(i) => {
                let row = self.cargoes[i].clone();
                Ok(row)
            },
            None => Err(
                ApiError::new(ErrorKind::NotFound, String::from_str("cargo not found")),
            ),
        }
    }

    /// Create a cargo in a namespace.  Fails with `AlreadyExists` when a
    /// cargo of the composed key is present, leaving the store unchanged.
    /// Otherwise the one new revision is appended to the spec table, the
    /// cargo row pointing at it is appended, and the cargo's status is set
    /// to `Created`; nothing else changes.
    pub fn create_cargo(
        &mut self,
        namespace: &str,
        item: CargoSpecPartial,
        version: &str,
        now: i64,
    ) -> (r: Result<CargoDb, ApiError>)
        requires
            old(self)@.inv(),
        ensures
            final(self)@.inv(),
            r is Ok <==> !has_cargo(
                old(self)@.cargoes,
                crate::text::spec_gen_key(namespace@, item@.name),
            ) && !has_vm(old(self)@.vms, crate::text::spec_gen_key(namespace@, item@.name)),
            r is Err ==> final(self)@ == old(self)@ && r->Err_0.kind
                == ErrorKind::AlreadyExists,
            r is Ok ==> final(self)@.specs.drop_last() == old(self)@.specs
                && final(self)@.specs.len() == old(self)@.specs.len() + 1,
            r is Ok ==> final(self)@.specs.last() == (SpecDbView {
                key: final(self)@.specs.last().key,
                created_at: final(self)@.specs.last().created_at,
                kind_name: "Cargo"@,
                kind_key: crate::text::spec_gen_key(namespace@, item@.name),
                version: version@,
                data: SpecDataView::Cargo(item@),
                metadata: item@.metadata,
            }),
            r is Ok ==> final(self)@.cargoes == old(self)@.cargoes.push(
                CargoDbView {
                    key: crate::text::spec_gen_key(namespace@, item@.name),
                    created_at: now,
                    name: item@.name,
                    spec_key: final(self)@.specs.last().key,
                    namespace_name: namespace@,
                },
            ),
            r is Ok ==> r->Ok_0@ == final(self)@.cargoes.last(),
            r is Ok ==> spec_status_of(
                final(self)@.statuses,
                crate::text::spec_gen_key(namespace@, item@.name),
            ) == Some(
                ObjPsStatus {
                    wanted: ObjPsStatusKind::Created,
                    prev_wanted: ObjPsStatusKind::Created,
                    actual: ObjPsStatusKind::Created,
                    prev_actual: ObjPsStatusKind::Created,
                },
            ),
            r is Ok ==> forall|k: Seq<char>|
                k != crate::text::spec_gen_key(namespace@, item@.name)
                    ==> #[trigger] spec_status_of(final(self)@.statuses, k)
                    == spec_status_of(old(self)@.statuses, k),
            final(self)@.namespaces == old(self)@.namespaces,
            final(self)@.vms == old(self)@.vms,
            final(self)@.resources == old(self)@.resources,
            final(self)@.processes == old(self)@.processes,
            final(self)@.nodes == old(self)@.nodes,
            final(self)@.secrets == old(self)@.secrets,
            final(self)@.jobs == old(self)@.jobs,
    {
        let key = gen_key(namespace, cargo_name_of(&item));
        if self.find_cargo(key.as_str()).is_some() {
            return Err(
                ApiError::new(
                    ErrorKind::AlreadyExists,
                    String::from_str("cargo already exists"),
                ),
            );
        }
        if self.find_vm(key.as_str()).is_some() {
            return Err(
                ApiError::new(
                    ErrorKind::AlreadyExists,
                    String::from_str("key used by a virtual machine"),
                ),
            );
        }
        let name = item.name.clone();
        let spec_row = SpecDb::try_from_cargo_partial(key.as_str(), version, item);
        let spec_key = spec_row.key;
        self.specs.push(spec_row);
        proof {
            assert(self@.specs =~= old(self)@.specs.push(self@.specs.last()));
            assert(self@ =~= (StoreView { specs: self@.specs, ..old(self)@ }));
            assert forall|i: int|
                0 <= i < self@.cargoes.len() implies spec_refs_cargo(
                self@.specs,
                #[trigger] self@.cargoes[i],
            ) by {
                let j = choose|j: int|
                    0 <= j < old(self)@.specs.len() && spec_matches_cargo(
                        #[trigger] old(self)@.specs[j],
                        old(self)@.cargoes[i],
                    );
                assert(spec_matches_cargo(self@.specs[j], self@.cargoes[i]));
            }
            assert forall|i: int|
                0 <= i < self@.vms.len() implies spec_refs_vm(
                self@.specs,
                #[trigger] self@.vms[i],
            ) by {
                let j = choose|j: int|
                    0 <= j < old(self)@.specs.len() && spec_matches_vm(
                        #[trigger] old(self)@.specs[j],
                        old(self)@.vms[i],
                    );
                assert(spec_matches_vm(self@.specs[j], self@.vms[i]));
            }
            assert forall|i: int|
                0 <= i < self@.resources.len() implies spec_refs_resource(
                self@.specs,
                #[trigger] self@.resources[i],
            ) by {
                let j = choose|j: int|
                    0 <= j < old(self)@.specs.len() && spec_matches_resource(
                        #[trigger] old(self)@.specs[j],
                        old(self)@.resources[i],
                    );
                assert(spec_matches_resource(self@.specs[j], self@.resources[i]));
            }
            assert(self@.inv());
        }
        self.upsert_status(key.as_str(), ObjPsStatus::new_created());
        let ghost mid = self@;
        let row = CargoDb {
            key: key.clone(),
            created_at: now,
            name,
            spec_key,
            namespace_name: namespace.to_owned(),
        };
        let out = row.clone();
        self.cargoes.push(row);
        proof {
            assert(self@.cargoes =~= mid.cargoes.push(self@.cargoes.last()));
            assert(self@ =~= (StoreView { cargoes: self@.cargoes, ..mid }));
            let n = self@.cargoes.len() - 1;
            assert(self@.cargoes[n].key == key@);
            assert(self@.cargoes[n].spec_key == spec_key);
            let sn = self@.specs.len() - 1;
            assert(spec_matches_cargo(self@.specs[sn], self@.cargoes[n]));
            assert forall|i: int|
                0 <= i < self@.cargoes.len() implies spec_refs_cargo(
                self@.specs,
                #[trigger] self@.cargoes[i],
            ) && has_status(self@.statuses, self@.cargoes[i].key) by {
                if i < n {
                    assert(spec_refs_cargo(mid.specs, mid.cargoes[i]));
                    assert(has_status(mid.statuses, mid.cargoes[i].key));
                    assert(self@.cargoes[i] == mid.cargoes[i]);
                }
            }
            assert(self@.inv());
            assert(final(self)@.cargoes =~= old(self)@.cargoes.push(
                CargoDbView {
                    key: crate::text::spec_gen_key(namespace@, item@.name),
                    created_at: now,
                    name: item@.name,
                    spec_key: final(self)@.specs.last().key,
                    namespace_name: namespace@,
                },
            ));
        }
        Ok(out)
    }
}

impl Store {
    /// Index of the cargo spec revision with the identifier, owned by the
    /// key.
    fn find_cargo_spec(&self, spec_key: u128, kind_key: &str) -> (r: Option<usize>)
        ensures
            r is Some ==> 0 <= r->0 < self@.specs.len() && spec_matches_cargo(
                self@.specs[r->0 as int],
                CargoDbView {
                    key: kind_key@,
                    created_at: 0,
                    name: Seq::<char>::empty(),
                    spec_key,
                    namespace_name: Seq::<char>::empty(),
                },
            ),
            r is None ==> forall|i: int|
                0 <= i < self@.specs.len() ==> !spec_matches_cargo(
                    #[trigger] self@.specs[i],
                    CargoDbView {
                        key: kind_key@,
                        created_at: 0,
                        name: Seq::<char>::empty(),
                        spec_key,
                        namespace_name: Seq::<char>::empty(),
                    },
                ),
    {
        let k = kind_key.to_owned();
        let kind = String::from_str("Cargo");
        proof {
            reveal_strlit("Cargo");
        }
        let mut i: usize = 0;
        while i < self.specs.len()
            invariant
                0 <= i <= self@.specs.len(),
                k@ == kind_key@,
                kind@ == "Cargo"@,
                forall|j: int|
                    0 <= j < i ==> !spec_matches_cargo(
                        #[trigger] self@.specs[j],
                        CargoDbView {
                            key: kind_key@,
                            created_at: 0,
                            name: Seq::<char>::empty(),
                            spec_key,
                            namespace_name: Seq::<char>::empty(),
                        },
                    ),
            decreases self@.specs.len() - i,
        {
            let row = &self.specs[i];
            let is_cargo = match &row.data {
                SpecData::Cargo(_) => true,
                _ => false,
            };
            if row.key == spec_key && row.kind_key.eq(&k) && row.kind_name.eq(&kind)
                && is_cargo {
                return Some(i);
            }
            i += 1;
        }
        None
    }

    /// Patch a cargo: merge the update over the cargo's current revision,
    /// append the merged payload as a new revision, and point the cargo row
    /// at it.  The history keeps every older revision.  Fails with
    /// `NotFound` when the cargo does not exist, leaving the store
    /// unchanged.
    pub fn patch_cargo(&mut self, key: &str, update: CargoSpecUpdate, version: &str) -> (r:
        Result<CargoDb, ApiError>)
        requires
            old(self)@.inv(),
        ensures
            final(self)@.inv(),
            r is Ok <==> has_cargo(old(self)@.cargoes, key@),
            r is Err ==> final(self)@ == old(self)@ && r->Err_0.kind == ErrorKind::NotFound,
            r is Ok ==> final(self)@.specs.drop_last() == old(self)@.specs
                && final(self)@.specs.len() == old(self)@.specs.len() + 1,
            r is Ok ==> final(self)@.specs.last().kind_name == "Cargo"@
                && final(self)@.specs.last().kind_key == key@
                && final(self)@.specs.last().version == version@,
            r is Ok ==> exists|ci: int, sj: int|
                0 <= ci < old(self)@.cargoes.len()
                    && (#[trigger] old(self)@.cargoes[ci]).key == key@
                    && 0 <= sj < old(self)@.specs.len()
                    && spec_matches_cargo(#[trigger] old(self)@.specs[sj], old(self)@.cargoes[ci])
                    && final(self)@.specs.last().data == SpecDataView::Cargo(
                    crate::cargo_spec::spec_merge_cargo(
                        crate::cargo_spec::CargoSpecPartialView {
                            metadata: old(self)@.specs[sj].metadata,
                            ..old(self)@.specs[sj].data->Cargo_0
                        },
                        update@,
                    ),
                ) && final(self)@.cargoes == old(self)@.cargoes.update(
                    ci,
                    CargoDbView {
                        spec_key: final(self)@.specs.last().key,
                        ..old(self)@.cargoes[ci]
                    },
                ),
            final(self)@.namespaces == old(self)@.namespaces,
            final(self)@.vms == old(self)@.vms,
            final(self)@.resources == old(self)@.resources,
            final(self)@.processes == old(self)@.processes,
            final(self)@.nodes == old(self)@.nodes,
            final(self)@.secrets == old(self)@.secrets,
            final(self)@.statuses == old(self)@.statuses,
            final(self)@.jobs == old(self)@.jobs,
    {
        let ci = match self.find_cargo(key) {
            Some(i) => i,
            None => {
                return Err(
                    ApiError::new(ErrorKind::NotFound, String::from_str("cargo not found")),
                );
            },
        };
        let spec_key_old = self.cargoes[ci].spec_key;
        let sj = match self.find_cargo_spec(spec_key_old, key) {
            Some(s) => s,
            None => {
                proof {
                    assert(spec_refs_cargo(self@.specs, self@.cargoes[ci as int]));
                    let w = choose|w: int|
                        0 <= w < self@.specs.len() && spec_matches_cargo(
                            #[trigger] self@.specs[w],
                            self@.cargoes[ci as int],
                        );
                    assert(false);
                }
                return Err(
                    ApiError::new(ErrorKind::Internal, String::from_str("missing revision")),
                );
            },
        };
        let old_spec = match self.specs[sj].try_to_cargo_spec() {
            Ok(s) => s,
            Err(e) => {
                proof {
                    assert(false);
                }
                return Err(e);
            },
        };
        let ghost old_payload = crate::cargo_spec::CargoSpecPartialView {
            metadata: self@.specs[sj as int].metadata,
            ..self@.specs[sj as int].data->Cargo_0
        };
        let merged = merge_update(old_spec, update);
        let ghost merged_view = merged@;
        proof {
            let target = crate::cargo_spec::spec_merge_cargo(old_payload, update@);
            assert(merged_view.name == target.name);
            assert(merged_view.metadata == target.metadata);
            assert(merged_view.init_container == target.init_container);
            assert(merged_view.secrets == target.secrets);
            assert(merged_view.container == target.container);
            assert(merged_view.replication == target.replication);
            assert(merged_view =~~= target);
        }
        let new_spec = SpecDb::try_from_cargo_partial(key, version, merged);
        let new_spec_key = new_spec.key;
        self.specs.push(new_spec);
        proof {
            assert(self@.specs =~= old(self)@.specs.push(self@.specs.last()));
            assert(self@ =~= (StoreView { specs: self@.specs, ..old(self)@ }));
        }
        let ghost mid = self@;
        let mut row = self.cargoes[ci].clone();
        row.spec_key = new_spec_key;
        let out = row.clone();
        self.cargoes.set(ci, row);
        proof {
            assert(self@.cargoes =~= mid.cargoes.update(
                ci as int,
                CargoDbView { spec_key: new_spec_key, ..mid.cargoes[ci as int] },
            ));
            assert(self@ =~= (StoreView { cargoes: self@.cargoes, ..mid }));
            let n = self@.specs.len() - 1;
            assert(spec_matches_cargo(self@.specs[n], self@.cargoes[ci as int]));
            assert forall|i: int|
                0 <= i < self@.cargoes.len() implies spec_refs_cargo(
                self@.specs,
                #[trigger] self@.cargoes[i],
            ) && has_status(self@.statuses, self@.cargoes[i].key) by {
                if i != ci {
                    assert(self@.cargoes[i] == old(self)@.cargoes[i]);
                    let w = choose|w: int|
                        0 <= w < old(self)@.specs.len() && spec_matches_cargo(
                            #[trigger] old(self)@.specs[w],
                            old(self)@.cargoes[i],
                        );
                    assert(spec_matches_cargo(self@.specs[w], self@.cargoes[i]));
                    assert(has_status(old(self)@.statuses, old(self)@.cargoes[i].key));
                } else {
                    assert(has_status(old(self)@.statuses, old(self)@.cargoes[i].key));
                }
            }
            assert forall|i: int|
                0 <= i < self@.vms.len() implies spec_refs_vm(
                self@.specs,
                #[trigger] self@.vms[i],
            ) by {
                let w = choose|w: int|
                    0 <= w < old(self)@.specs.len() && spec_matches_vm(
                        #[trigger] old(self)@.specs[w],
                        old(self)@.vms[i],
                    );
                assert(spec_matches_vm(self@.specs[w], self@.vms[i]));
            }
            assert forall|i: int|
                0 <= i < self@.resources.len() implies spec_refs_resource(
                self@.specs,
                #[trigger] self@.resources[i],
            ) by {
                let w = choose|w: int|
                    0 <= w < old(self)@.specs.len() && spec_matches_resource(
                        #[trigger] old(self)@.specs[w],
                        old(self)@.resources[i],
                    );
                assert(spec_matches_resource(self@.specs[w], self@.resources[i]));
            }
            assert(self@.inv());
        }
        Ok(out)
    }
}

/// The predicate keeping every spec revision but those of one object.
pub open spec fn keeps_spec(key: Seq<char>, kind: Seq<char>) -> spec_fn(SpecDbView) -> bool {
    |s: SpecDbView| !(s.kind_key == key && s.kind_name == kind)
}

/// The predicate keeping every cargo row but one.
pub open spec fn cargo_other(key: Seq<char>) -> spec_fn(CargoDbView) -> bool {
    |c: CargoDbView| c.key != key
}

/// The predicate keeping every process row not owned by the key.
pub open spec fn process_other(key: Seq<char>) -> spec_fn(ProcessDbView) -> bool {
    |p: ProcessDbView| p.kind_key != key
}

/// The predicate keeping every process row but the container's own.
pub open spec fn proc_key_other(pk: Seq<char>) -> spec_fn(ProcessDbView) -> bool {
    |p: ProcessDbView| p.key != pk
}

/// The predicate keeping every status row but the key's.
pub open spec fn status_other(key: Seq<char>) -> spec_fn(ObjPsStatusDbView) -> bool {
    |s: ObjPsStatusDbView| s.key != key
}

impl Store {
    /// Drop every spec revision owned by the key under the kind.
    fn retain_specs_except(&mut self, key: &str, kind: &str)
        ensures
            final(self)@.specs == old(self)@.specs.filter(keeps_spec(key@, kind@)),
            final(self)@ == (StoreView { specs: final(self)@.specs, ..old(self)@ }),
    {
        let k = key.to_owned();
        let kd = kind.to_owned();
        let mut kept: Vec<SpecDb> = Vec::new();
        let mut i: usize = 0;
        while i < self.specs.len()
            invariant
                0 <= i <= self.specs.len(),
                k@ == key@,
                kd@ == kind@,
                self@ == old(self)@,
                kept@.map_values(|s: SpecDb| s@) == old(self)@.specs.take(i as int).filter(
                    keeps_spec(key@, kind@),
                ),
            decreases self.specs.len() - i,
        {
            proof {
                lemma_take_succ(old(self)@.specs, i as int);
                lemma_filter_push(
                    old(self)@.specs.take(i as int),
                    keeps_spec(key@, kind@),
                    old(self)@.specs[i as int],
                );
            }
            let row = &self.specs[i];
            if !(row.kind_key.eq(&k) && row.kind_name.eq(&kd)) {
                let ghost before = kept@.map_values(|s: SpecDb| s@);
                kept.push(self.specs[i].clone());
                proof {
                    assert(kept@.map_values(|s: SpecDb| s@) =~= before.push(
                        old(self)@.specs[i as int],
                    ));
                }
            }
            i += 1;
        }
        proof {
            assert(old(self)@.specs.take(self.specs.len() as int) =~= old(self)@.specs);
        }
        self.specs = kept;
        proof {
            assert(self@ =~= (StoreView { specs: self@.specs, ..old(self)@ }));
        }
    }

    /// Drop the cargo row with the key.
    fn retain_cargoes_except(&mut self, key: &str)
        ensures
            final(self)@.cargoes == old(self)@.cargoes.filter(cargo_other(key@)),
            final(self)@ == (StoreView { cargoes: final(self)@.cargoes, ..old(self)@ }),
    {
        let k = key.to_owned();
        let mut kept: Vec<CargoDb> = Vec::new();
        let mut i: usize = 0;
        while i < self.cargoes.len()
            invariant
                0 <= i <= self.cargoes.len(),
                k@ == key@,
                self@ == old(self)@,
                kept@.map_values(|c: CargoDb| c@) == old(self)@.cargoes.take(i as int).filter(
                    cargo_other(key@),
                ),
            decreases self.cargoes.len() - i,
        {
            proof {
                lemma_take_succ(old(self)@.cargoes, i as int);
                lemma_filter_push(
                    old(self)@.cargoes.take(i as int),
                    cargo_other(key@),
                    old(self)@.cargoes[i as int],
                );
            }
            if !self.cargoes[i].key.eq(&k) {
                let ghost before = kept@.map_values(|c: CargoDb| c@);
                kept.push(self.cargoes[i].clone());
                proof {
                    assert(kept@.map_values(|c: CargoDb| c@) =~= before.push(
                        old(self)@.cargoes[i as int],
                    ));
                }
            }
            i += 1;
        }
        proof {
            assert(old(self)@.cargoes.take(self.cargoes.len() as int) =~= old(self)@.cargoes);
        }
        self.cargoes = kept;
        proof {
            assert(self@ =~= (StoreView { cargoes: self@.cargoes, ..old(self)@ }));
        }
    }

    /// Drop every process row owned by the key.
    fn retain_processes_except(&mut self, key: &str)
        ensures
            final(self)@.processes == old(self)@.processes.filter(process_other(key@)),
            final(self)@ == (StoreView { processes: final(self)@.processes, ..old(self)@ }),
    {
        let k = key.to_owned();
        let mut kept: Vec<ProcessDb> = Vec::new();
        let mut i: usize = 0;
        while i < self.processes.len()
            invariant
                0 <= i <= self.processes.len(),
                k@ == key@,
                self@ == old(self)@,
                kept@.map_values(|p: ProcessDb| p@) == old(self)@.processes.take(
                    i as int,
                ).filter(process_other(key@)),
            decreases self.processes.len() - i,
        {
            proof {
                lemma_take_succ(old(self)@.processes, i as int);
                lemma_filter_push(
                    old(self)@.processes.take(i as int),
                    process_other(key@),
                    old(self)@.processes[i as int],
                );
            }
            if !self.processes[i].kind_key.eq(&k) {
                let ghost before = kept@.map_values(|p: ProcessDb| p@);
                kept.push(self.processes[i].clone());
                proof {
                    assert(kept@.map_values(|p: ProcessDb| p@) =~= before.push(
                        old(self)@.processes[i as int],
                    ));
                }
            }
            i += 1;
        }
        proof {
            assert(old(self)@.processes.take(self.processes.len() as int) =~= old(
                self,
            )@.processes);
        }
        self.processes = kept;
        proof {
            assert(self@ =~= (StoreView { processes: self@.processes, ..old(self)@ }));
        }
    }

    /// Drop the status row with the key.
    fn retain_statuses_except(&mut self, key: &str)
        ensures
            final(self)@.statuses == old(self)@.statuses.filter(status_other(key@)),
            final(self)@ == (StoreView { statuses: final(self)@.statuses, ..old(self)@ }),
    {
        let k = key.to_owned();
        let mut kept: Vec<ObjPsStatusDb> = Vec::new();
        let mut i: usize = 0;
        while i < self.statuses.len()
            invariant
                0 <= i <= self.statuses.len(),
                k@ == key@,
                self@ == old(self)@,
                kept@.map_values(|s: ObjPsStatusDb| s@) == old(self)@.statuses.take(
                    i as int,
                ).filter(status_other(key@)),
            decreases self.statuses.len() - i,
        {
            proof {
                lemma_take_succ(old(self)@.statuses, i as int);
                lemma_filter_push(
                    old(self)@.statuses.take(i as int),
                    status_other(key@),
                    old(self)@.statuses[i as int],
                );
            }
            if !self.statuses[i].key.eq(&k) {
                let ghost before = kept@.map_values(|s: ObjPsStatusDb| s@);
                kept.push(self.statuses[i].clone());
                proof {
                    assert(kept@.map_values(|s: ObjPsStatusDb| s@) =~= before.push(
                        old(self)@.statuses[i as int],
                    ));
                }
            }
            i += 1;
        }
        proof {
            assert(old(self)@.statuses.take(self.statuses.len() as int) =~= old(
                self,
            )@.statuses);
        }
        self.statuses = kept;
        proof {
            assert(self@ =~= (StoreView { statuses: self@.statuses, ..old(self)@ }));
        }
    }

    /// Delete a cargo: its process rows, every spec revision of its own,
    /// its status row and the cargo row itself are removed; every other
    /// object keeps its rows.  Fails with `NotFound` when the cargo does
    /// not exist, leaving the store unchanged.
    pub fn delete_cargo(&mut self, key: &str) -> (r: Result<(), ApiError>)
        requires
            old(self)@.inv(),
        ensures
            final(self)@.inv(),
            r is Ok <==> has_cargo(old(self)@.cargoes, key@),
            r is Err ==> final(self)@ == old(self)@ && r->Err_0.kind == ErrorKind::NotFound,
            r is Ok ==> final(self)@.specs == old(self)@.specs.filter(
                keeps_spec(key@, "Cargo"@),
            ),
            r is Ok ==> final(self)@.cargoes == old(self)@.cargoes.filter(cargo_other(key@)),
            r is Ok ==> final(self)@.processes == old(self)@.processes.filter(
                process_other(key@),
            ),
            r is Ok ==> final(self)@.statuses == old(self)@.statuses.filter(
                status_other(key@),
            ),
            r is Ok ==> !has_cargo(final(self)@.cargoes, key@),
            r is Ok ==> forall|i: int|
                0 <= i < final(self)@.specs.len() ==> !((#[trigger] final(self)@.specs[i]).kind_key
                    == key@ && final(self)@.specs[i].kind_name == "Cargo"@),
            final(self)@.namespaces == old(self)@.namespaces,
            final(self)@.vms == old(self)@.vms,
            final(self)@.resources == old(self)@.resources,
            final(self)@.nodes == old(self)@.nodes,
            final(self)@.secrets == old(self)@.secrets,
            final(self)@.jobs == old(self)@.jobs,
    {
        broadcast use vstd::seq_lib::group_filter_ensures;

        let ci = match self.find_cargo(key) {
            Some(i) => i,
            None => {
                return Err(
                    ApiError::new(ErrorKind::NotFound, String::from_str("cargo not found")),
                );
            },
        };
        self.retain_processes_except(key);
        self.retain_specs_except(key, "Cargo");
        self.retain_statuses_except(key);
        self.retain_cargoes_except(key);
        proof {
            reveal_strlit("Cargo");
            reveal_strlit("Vm");
            reveal_strlit("Resource");
            assert("Cargo"@.len() == 5);
            assert("Vm"@.len() == 2);
            assert("Resource"@.len() == 8);
            let pre = old(self)@;
            let post = self@;
            lemma_filter_unique_by(pre.cargoes, cargo_other(key@), |c: CargoDbView| c.key);
            lemma_filter_unique_by(
                pre.processes,
                process_other(key@),
                |p: ProcessDbView| p.key,
            );
            lemma_filter_unique_by(
                pre.statuses,
                status_other(key@),
                |s: ObjPsStatusDbView| s.key,
            );
            lemma_filter_subset(pre.cargoes, cargo_other(key@));
            lemma_filter_subset(pre.processes, process_other(key@));
            lemma_filter_subset(pre.statuses, status_other(key@));
            lemma_filter_subset(pre.specs, keeps_spec(key@, "Cargo"@));
            assert forall|i: int|
                0 <= i < post.cargoes.len() implies spec_refs_cargo(
                post.specs,
                #[trigger] post.cargoes[i],
            ) && has_status(post.statuses, post.cargoes[i].key) by {
                let c = post.cargoes[i];
                assert(pre.cargoes.contains(c));
                let oi = choose|oi: int| 0 <= oi < pre.cargoes.len() && pre.cargoes[oi] == c;
                assert(c.key != key@);
                let sw = choose|sw: int|
                    0 <= sw < pre.specs.len() && spec_matches_cargo(
                        #[trigger] pre.specs[sw],
                        c,
                    );
                assert(keeps_spec(key@, "Cargo"@)(pre.specs[sw]));
                assert(pre.specs.filter(keeps_spec(key@, "Cargo"@)).contains(pre.specs[sw]));
                let ni = choose|ni: int|
                    0 <= ni < post.specs.len() && post.specs[ni] == pre.specs[sw];
                assert(spec_matches_cargo(post.specs[ni], c));
                let stw = choose|stw: int|
                    0 <= stw < pre.statuses.len() && (#[trigger] pre.statuses[stw]).key
                        == c.key;
                assert(status_other(key@)(pre.statuses[stw]));
                assert(pre.statuses.filter(status_other(key@)).contains(pre.statuses[stw]));
            }
            assert forall|i: int|
                0 <= i < post.vms.len() implies spec_refs_vm(
                post.specs,
                #[trigger] post.vms[i],
            ) && has_status(post.statuses, post.vms[i].key) by {
                let v = post.vms[i];
                assert(pre.vms[i] == v);
                assert(v.key != key@) by {
                    assert(pre.cargoes[ci as int].key == key@);
                }
                let sw = choose|sw: int|
                    0 <= sw < pre.specs.len() && spec_matches_vm(#[trigger] pre.specs[sw], v);
                assert(pre.specs[sw].kind_name == "Vm"@);
                assert(keeps_spec(key@, "Cargo"@)(pre.specs[sw]));
                assert(pre.specs.filter(keeps_spec(key@, "Cargo"@)).contains(pre.specs[sw]));
                let stw = choose|stw: int|
                    0 <= stw < pre.statuses.len() && (#[trigger] pre.statuses[stw]).key
                        == v.key;
                assert(status_other(key@)(pre.statuses[stw]));
                assert(pre.statuses.filter(status_other(key@)).contains(pre.statuses[stw]));
            }
            assert forall|i: int|
                0 <= i < post.resources.len() implies spec_refs_resource(
                post.specs,
                #[trigger] post.resources[i],
            ) by {
                let rr = post.resources[i];
                assert(pre.resources[i] == rr);
                let sw = choose|sw: int|
                    0 <= sw < pre.specs.len() && spec_matches_resource(
                        #[trigger] pre.specs[sw],
                        rr,
                    );
                assert(pre.specs[sw].kind_name == "Resource"@);
                assert(keeps_spec(key@, "Cargo"@)(pre.specs[sw]));
                assert(pre.specs.filter(keeps_spec(key@, "Cargo"@)).contains(pre.specs[sw]));
            }
            assert forall|i: int|
                0 <= i < post.statuses.len() && (#[trigger] post.statuses[i]).status.actual
                    == ObjPsStatusKind::Running implies has_running_process(
                post.processes,
                post.statuses[i].key,
            ) by {
                let st = post.statuses[i];
                assert(pre.statuses.contains(st));
                let oi = choose|oi: int|
                    0 <= oi < pre.statuses.len() && pre.statuses[oi] == st;
                assert(st.key != key@);
                let pw = choose|pw: int|
                    0 <= pw < pre.processes.len() && (#[trigger] pre.processes[pw]).kind_key
                        == st.key && pre.processes[pw].running;
                assert(process_other(key@)(pre.processes[pw]));
                assert(pre.processes.filter(process_other(key@)).contains(pre.processes[pw]));
                let ni = choose|ni: int|
                    0 <= ni < post.processes.len() && post.processes[ni] == pre.processes[pw];
            }
            assert forall|i: int, j: int|
                0 <= i < post.cargoes.len() && 0 <= j < post.vms.len() implies (
            #[trigger] post.cargoes[i]).key != (#[trigger] post.vms[j]).key by {
                let c = post.cargoes[i];
                assert(pre.cargoes.contains(c));
                let oi = choose|oi: int| 0 <= oi < pre.cargoes.len() && pre.cargoes[oi] == c;
                assert(pre.vms[j] == post.vms[j]);
            }
            assert(!has_cargo(post.cargoes, key@));
            assert(post.inv());
        }
        Ok(())
    }
}

/// Whether a secret row with the key exists.
pub open spec fn has_secret(secrets: Seq<SecretDbView>, key: Seq<char>) -> bool {
    exists|i: int| 0 <= i < secrets.len() && (#[trigger] secrets[i]).key == key
}

impl Store {
    /// Index of the secret row with the key.
    fn find_secret(&self, key: &str) -> (r: Option<usize>)
        ensures
            r is Some ==> 0 <= r->0 < self@.secrets.len() && self@.secrets[
                r->0 as int
            ].key == key@,
            r is None ==> forall|i: int|
                0 <= i < self@.secrets.len() ==> (#[trigger] self@.secrets[i]).key != key@,
    {
        let k = key.to_owned();
        let mut i: usize = 0;
        while i < self.secrets.len()
            invariant
                0 <= i <= self@.secrets.len(),
                k@ == key@,
                forall|j: int| 0 <= j < i ==> (#[trigger] self@.secrets[j]).key != key@,
            decreases self@.secrets.len() - i,
        {
            if self.secrets[i].key.eq(&k) {
                assert(self@.secrets[i as int].key == key@);
                return Some(i);
            }
            assert(self@.secrets[i as int].key != key@);
            i += 1;
        }
        None
    }

    /// Read the secret with the key, failing with `NotFound` when the
    /// secret does not exist.
    pub fn inspect_secret(&self, key: &str) -> (r: Result<SecretDb, ApiError>)
        ensures
            r is Ok <==> has_secret(self@.secrets, key@),
            r is Ok ==> exists|i: int|
                0 <= i < self@.secrets.len() && #[trigger] self@.secrets[i] == r->Ok_0@
                    && r->Ok_0@.key == key@,
            r is Err ==> r->Err_0.kind == ErrorKind::NotFound,
    {
        match self.find_secret(key) {
            Some(i) => Ok(self.secrets[i].clone()),
            None => Err(
                ApiError::new(ErrorKind::NotFound, String::from_str("secret not found")),
            ),
        }
    }

    /// Create a secret.  Fails with `AlreadyExists` when a secret of the
    /// key is present, leaving the store unchanged; otherwise the one new
    /// row is appended.
    pub fn create_secret(&mut self, row: SecretDb) -> (r: Result<(), ApiError>)
        requires
            old(self)@.inv(),
        ensures
            final(self)@.inv(),
            r is Ok <==> !has_secret(old(self)@.secrets, row@.key),
            r is Err ==> final(self)@ == old(self)@ && r->Err_0.kind
                == ErrorKind::AlreadyExists,
            r is Ok ==> final(self)@ == (StoreView {
                secrets: old(self)@.secrets.push(row@),
                ..old(self)@
            }),
    {
        if self.find_secret(row.key.as_str()).is_some() {
            return Err(
                ApiError::new(
                    ErrorKind::AlreadyExists,
                    String::from_str("secret already exists"),
                ),
            );
        }
        let ghost rv = row@;
        self.secrets.push(row);
        proof {
            assert(self@.secrets =~= old(self)@.secrets.push(rv));
            assert(self@ =~= (StoreView { secrets: self@.secrets, ..old(self)@ }));
        }
        Ok(())
    }

    /// Patch a secret's payload.  An immutable secret rejects the patch
    /// with `Conflict` and keeps its rows; a missing secret fails with
    /// `NotFound`.  Otherwise the payload and the update instant are
    /// replaced and everything else is kept.
    pub fn patch_secret(&mut self, key: &str, data: String, now: i64) -> (r: Result<
        SecretDb,
        ApiError,
    >)
        requires
            old(self)@.inv(),
        ensures
            final(self)@.inv(),
            r is Err ==> final(self)@ == old(self)@,
            !has_secret(old(self)@.secrets, key@) ==> r is Err && r->Err_0.kind
                == ErrorKind::NotFound,
            forall|i: int|
                0 <= i < old(self)@.secrets.len() && (#[trigger] old(self)@.secrets[i]).key
                    == key@ && old(self)@.secrets[i].immutable ==> r is Err && r->Err_0.kind
                    == ErrorKind::Conflict,
            r is Ok ==> exists|i: int|
                0 <= i < old(self)@.secrets.len() && (#[trigger] old(self)@.secrets[i]).key
                    == key@ && !old(self)@.secrets[i].immutable && final(self)@ == (StoreView {
                    secrets: old(self)@.secrets.update(
                        i,
                        SecretDbView { data: data@, updated_at: now, ..old(self)@.secrets[i] },
                    ),
                    ..old(self)@
                }) && r->Ok_0@ == final(self)@.secrets[i],
    {
        let i = match self.find_secret(key) {
            Some(i) => i,
            None => {
                return Err(
                    ApiError::new(ErrorKind::NotFound, String::from_str("secret not found")),
                );
            },
        };
        if self.secrets[i].immutable {
            return Err(
                ApiError::new(ErrorKind::Conflict, String::from_str("secret is immutable")),
            );
        }
        let mut row = self.secrets[i].clone();
        row.data = data;
        row.updated_at = now;
        let out = row.clone();
        self.secrets.set(i, row);
        proof {
            assert(self@.secrets =~= old(self)@.secrets.update(
                i as int,
                self@.secrets[i as int],
            ));
            assert(self@ =~= (StoreView { secrets: self@.secrets, ..old(self)@ }));
        }
        Ok(out)
    }

    /// Delete the secret with the key, failing with `NotFound` when the
    /// secret does not exist.
    pub fn delete_secret(&mut self, key: &str) -> (r: Result<(), ApiError>)
        requires
            old(self)@.inv(),
        ensures
            final(self)@.inv(),
            r is Ok <==> has_secret(old(self)@.secrets, key@),
            r is Err ==> final(self)@ == old(self)@ && r->Err_0.kind == ErrorKind::NotFound,
            r is Ok ==> final(self)@ == (StoreView {
                secrets: old(self)@.secrets.filter(
                    |s: SecretDbView| s.key != key@,
                ),
                ..old(self)@
            }),
            r is Ok ==> !has_secret(final(self)@.secrets, key@),
    {
        broadcast use vstd::seq_lib::group_filter_ensures;

        if self.find_secret(key).is_none() {
            return Err(
                ApiError::new(ErrorKind::NotFound, String::from_str("secret not found")),
            );
        }
        let k = key.to_owned();
        let mut kept: Vec<SecretDb> = Vec::new();
        let mut i: usize = 0;
        while i < self.secrets.len()
            invariant
                0 <= i <= self.secrets.len(),
                k@ == key@,
                self@ == old(self)@,
                kept@.map_values(|s: SecretDb| s@) == old(self)@.secrets.take(i as int).filter(
                    |s: SecretDbView| s.key != key@,
                ),
            decreases self.secrets.len() - i,
        {
            proof {
                lemma_take_succ(old(self)@.secrets, i as int);
                lemma_filter_push(
                    old(self)@.secrets.take(i as int),
                    |s: SecretDbView| s.key != key@,
                    old(self)@.secrets[i as int],
                );
            }
            if !self.secrets[i].key.eq(&k) {
                let ghost before = kept@.map_values(|s: SecretDb| s@);
                kept.push(self.secrets[i].clone());
                proof {
                    assert(kept@.map_values(|s: SecretDb| s@) =~= before.push(
                        old(self)@.secrets[i as int],
                    ));
                }
            }
            i += 1;
        }
        proof {
            assert(old(self)@.secrets.take(self.secrets.len() as int) =~= old(self)@.secrets);
        }
        self.secrets = kept;
        proof {
            lemma_filter_unique_by(
                old(self)@.secrets,
                |s: SecretDbView| s.key != key@,
                |s: SecretDbView| s.key,
            );
            assert(self@ =~= (StoreView { secrets: self@.secrets, ..old(self)@ }));
        }
        Ok(())
    }
}

impl Store {
    /// Index of the process row with the key.
    fn find_process(&self, pk: &str) -> (r: Option<usize>)
        ensures
            r is Some ==> 0 <= r->0 < self@.processes.len() && self@.processes[
                r->0 as int
            ].key == pk@,
            r is None ==> forall|i: int|
                0 <= i < self@.processes.len() ==> (#[trigger] self@.processes[i]).key != pk@,
    {
        let k = pk.to_owned();
        let mut i: usize = 0;
        while i < self.processes.len()
            invariant
                0 <= i <= self@.processes.len(),
                k@ == pk@,
                forall|j: int| 0 <= j < i ==> (#[trigger] self@.processes[j]).key != pk@,
            decreases self@.processes.len() - i,
        {
            if self.processes[i].key.eq(&k) {
                assert(self@.processes[i as int].key == pk@);
                return Some(i);
            }
            assert(self@.processes[i as int].key != pk@);
            i += 1;
        }
        None
    }

    /// The process rows owned by a key, in table order.
    pub fn read_processes_by_kind_key(&self, key: &str) -> (r: Vec<ProcessDb>)
        ensures
            r@.map_values(|p: ProcessDb| p@) == self@.processes.filter(
                |p: ProcessDbView| p.kind_key == key@,
            ),
    {
        let k = key.to_owned();
        let mut out: Vec<ProcessDb> = Vec::new();
        let mut i: usize = 0;
        while i < self.processes.len()
            invariant
                0 <= i <= self.processes.len(),
                k@ == key@,
                out@.map_values(|p: ProcessDb| p@) == self@.processes.take(i as int).filter(
                    |p: ProcessDbView| p.kind_key == key@,
                ),
            decreases self.processes.len() - i,
        {
            proof {
                lemma_take_succ(self@.processes, i as int);
                lemma_filter_push(
                    self@.processes.take(i as int),
                    |p: ProcessDbView| p.kind_key == key@,
                    self@.processes[i as int],
                );
            }
            if self.processes[i].kind_key.eq(&k) {
                let ghost before = out@.map_values(|p: ProcessDb| p@);
                out.push(self.processes[i].clone());
                proof {
                    assert(out@.map_values(|p: ProcessDb| p@) =~= before.push(
                        self@.processes[i as int],
                    ));
                }
            }
            i += 1;
        }
        proof {
            assert(self@.processes.take(self.processes.len() as int) =~= self@.processes);
        }
        out
    }

    /// Record a freshly created container as a process row.  Fails with
    /// `AlreadyExists` when a row of the key is present, leaving the store
    /// unchanged.
    pub fn create_process(&mut self, row: ProcessDb) -> (r: Result<(), ApiError>)
        requires
            old(self)@.inv(),
        ensures
            final(self)@.inv(),
            r is Ok <==> !(exists|i: int|
                0 <= i < old(self)@.processes.len()
                    && (#[trigger] old(self)@.processes[i]).key == row@.key),
            r is Err ==> final(self)@ == old(self)@ && r->Err_0.kind
                == ErrorKind::AlreadyExists,
            r is Ok ==> final(self)@ == (StoreView {
                processes: old(self)@.processes.push(row@),
                ..old(self)@
            }),
    {
        if self.find_process(row.key.as_str()).is_some() {
            return Err(
                ApiError::new(
                    ErrorKind::AlreadyExists,
                    String::from_str("process already exists"),
                ),
            );
        }
        let ghost rv = row@;
        self.processes.push(row);
        proof {
            assert(self@.processes =~= old(self)@.processes.push(rv));
            assert(self@ =~= (StoreView { processes: self@.processes, ..old(self)@ }));
            assert forall|i: int|
                0 <= i < self@.statuses.len() && (#[trigger] self@.statuses[i]).status.actual
                    == ObjPsStatusKind::Running implies has_running_process(
                self@.processes,
                self@.statuses[i].key,
            ) by {
                let w = choose|w: int|
                    0 <= w < old(self)@.processes.len()
                        && (#[trigger] old(self)@.processes[w]).kind_key
                        == old(self)@.statuses[i].key && old(self)@.processes[w].running;
                assert(self@.processes[w] == old(self)@.processes[w]);
            }
        }
        Ok(())
    }

    /// Drop the process row of a removed container.  Succeeds whether or
    /// not the row exists, matching the idempotence of container removal.
    /// The caller owes that no object observed as `Running` is left
    /// without another running process.
    pub fn del_process_row(&mut self, pk: &str)
        requires
            old(self)@.inv(),
            forall|i: int|
                0 <= i < old(self)@.statuses.len()
                    && (#[trigger] old(self)@.statuses[i]).status.actual
                    == ObjPsStatusKind::Running ==> exists|j: int|
                    0 <= j < old(self)@.processes.len()
                        && (#[trigger] old(self)@.processes[j]).kind_key == old(
                        self,
                    )@.statuses[i].key && old(self)@.processes[j].running && old(
                        self,
                    )@.processes[j].key != pk@,
        ensures
            final(self)@.inv(),
            final(self)@ == (StoreView {
                processes: old(self)@.processes.filter(proc_key_other(pk@)),
                ..old(self)@
            }),
    {
        broadcast use vstd::seq_lib::group_filter_ensures;

        let k = pk.to_owned();
        let mut kept: Vec<ProcessDb> = Vec::new();
        let mut i: usize = 0;
        while i < self.processes.len()
            invariant
                0 <= i <= self.processes.len(),
                k@ == pk@,
                self@ == old(self)@,
                kept@.map_values(|p: ProcessDb| p@) == old(self)@.processes.take(
                    i as int,
                ).filter(proc_key_other(pk@)),
            decreases self.processes.len() - i,
        {
            proof {
                lemma_take_succ(old(self)@.processes, i as int);
                lemma_filter_push(
                    old(self)@.processes.take(i as int),
                    proc_key_other(pk@),
                    old(self)@.processes[i as int],
                );
            }
            if !self.processes[i].key.eq(&k) {
                let ghost before = kept@.map_values(|p: ProcessDb| p@);
                kept.push(self.processes[i].clone());
                proof {
                    assert(kept@.map_values(|p: ProcessDb| p@) =~= before.push(
                        old(self)@.processes[i as int],
                    ));
                }
            }
            i += 1;
        }
        proof {
            assert(old(self)@.processes.take(self.processes.len() as int) =~= old(
                self,
            )@.processes);
        }
        self.processes = kept;
        proof {
            let pred = proc_key_other(pk@);
            lemma_filter_unique_by(old(self)@.processes, pred, |p: ProcessDbView| p.key);
            assert(self@ =~= (StoreView { processes: self@.processes, ..old(self)@ }));
            assert forall|i: int|
                0 <= i < self@.statuses.len() && (#[trigger] self@.statuses[i]).status.actual
                    == ObjPsStatusKind::Running implies has_running_process(
                self@.processes,
                self@.statuses[i].key,
            ) by {
                let w = choose|w: int|
                    0 <= w < old(self)@.processes.len()
                        && (#[trigger] old(self)@.processes[w]).kind_key == old(
                        self,
                    )@.statuses[i].key && old(self)@.processes[w].running && old(
                        self,
                    )@.processes[w].key != pk@;
                assert(pred(old(self)@.processes[w]));
                assert(old(self)@.processes.filter(pred).contains(old(self)@.processes[w]));
            }
        }
    }

    /// Apply the runtime's report that a container entered the running
    /// state: the process row is marked running and the owning object's
    /// observation moves to `Running`, recording the previous one.  Fails
    /// with `NotFound` when no process row has the key, leaving the store
    /// unchanged.
    pub fn on_process_started(&mut self, pk: &str) -> (r: Result<(), ApiError>)
        requires
            old(self)@.inv(),
        ensures
            final(self)@.inv(),
            r is Err ==> final(self)@ == old(self)@ && r->Err_0.kind == ErrorKind::NotFound,
            r is Ok <==> exists|i: int|
                0 <= i < old(self)@.processes.len()
                    && (#[trigger] old(self)@.processes[i]).key == pk@,
            r is Ok ==> exists|i: int|
                0 <= i < old(self)@.processes.len()
                    && (#[trigger] old(self)@.processes[i]).key == pk@
                    && final(self)@.processes == old(self)@.processes.update(
                    i,
                    ProcessDbView { running: true, ..old(self)@.processes[i] },
                ) && spec_status_of(final(self)@.statuses, old(self)@.processes[i].kind_key)
                    is Some && spec_status_of(
                    final(self)@.statuses,
                    old(self)@.processes[i].kind_key,
                )->0.actual == ObjPsStatusKind::Running,
            r is Ok ==> final(self)@.cargoes == old(self)@.cargoes && final(self)@.specs
                == old(self)@.specs && final(self)@.vms == old(self)@.vms,
    {
        let i = match self.find_process(pk) {
            Some(i) => i,
            None => {
                return Err(
                    ApiError::new(ErrorKind::NotFound, String::from_str("process not found")),
                );
            },
        };
        let mut row = self.processes[i].clone();
        row.running = true;
        let kind_key = row.kind_key.clone();
        self.processes.set(i, row);
        proof {
            assert(self@.processes =~= old(self)@.processes.update(
                i as int,
                ProcessDbView { running: true, ..old(self)@.processes[i as int] },
            ));
            assert(self@ =~= (StoreView { processes: self@.processes, ..old(self)@ }));
            assert forall|m: int|
                0 <= m < self@.statuses.len() && (#[trigger] self@.statuses[m]).status.actual
                    == ObjPsStatusKind::Running implies has_running_process(
                self@.processes,
                self@.statuses[m].key,
            ) by {
                let w = choose|w: int|
                    0 <= w < old(self)@.processes.len()
                        && (#[trigger] old(self)@.processes[w]).kind_key == old(
                        self,
                    )@.statuses[m].key && old(self)@.processes[w].running;
                if w == i as int {
                    assert(self@.processes[w].kind_key == old(self)@.statuses[m].key
                        && self@.processes[w].running);
                } else {
                    assert(self@.processes[w] == old(self)@.processes[w]);
                }
            }
        }
        let prev = match self.read_status(kind_key.as_str()) {
            Ok(st) => st,
            Err(_) => ObjPsStatus::new_created(),
        };
        let next = ObjPsStatus {
            wanted: prev.wanted,
            prev_wanted: prev.prev_wanted,
            actual: ObjPsStatusKind::Running,
            prev_actual: prev.actual,
        };
        proof {
            assert(self@.processes[i as int].kind_key == kind_key@
                && self@.processes[i as int].running);
        }
        self.upsert_status(kind_key.as_str(), next);
        Ok(())
    }

    /// Apply the runtime's report that a container stopped: the process
    /// row is marked not running, and when the owning object was observed
    /// as `Running` and no running process of it remains, its observation
    /// moves to `Stopped`, recording the previous one.  Fails with
    /// `NotFound` when no process row has the key, leaving the store
    /// unchanged.
    pub fn on_process_stopped(&mut self, pk: &str) -> (r: Result<(), ApiError>)
        requires
            old(self)@.inv(),
        ensures
            final(self)@.inv(),
            r is Err ==> final(self)@ == old(self)@ && r->Err_0.kind == ErrorKind::NotFound,
            r is Ok <==> exists|i: int|
                0 <= i < old(self)@.processes.len()
                    && (#[trigger] old(self)@.processes[i]).key == pk@,
            r is Ok ==> exists|i: int|
                0 <= i < old(self)@.processes.len()
                    && (#[trigger] old(self)@.processes[i]).key == pk@
                    && final(self)@.processes == old(self)@.processes.update(
                    i,
                    ProcessDbView { running: false, ..old(self)@.processes[i] },
                ) && (forall|k: Seq<char>|
                    k != old(self)@.processes[i].kind_key ==> #[trigger] spec_status_of(
                        final(self)@.statuses,
                        k,
                    ) == spec_status_of(old(self)@.statuses, k)),
            r is Ok ==> final(self)@.cargoes == old(self)@.cargoes
                && final(self)@.specs == old(self)@.specs
                && final(self)@.vms == old(self)@.vms
                && final(self)@.secrets == old(self)@.secrets
                && final(self)@.namespaces == old(self)@.namespaces
                && final(self)@.resources == old(self)@.resources,
    {
        let i = match self.find_process(pk) {
            Some(i) => i,
            None => {
                return Err(
                    ApiError::new(ErrorKind::NotFound, String::from_str("process not found")),
                );
            },
        };
        let mut row = self.processes[i].clone();
        row.running = false;
        let kind_key = row.kind_key.clone();
        self.processes.set(i, row);
        let ghost mid = self@;
        proof {
            assert(mid.processes =~= old(self)@.processes.update(
                i as int,
                ProcessDbView { running: false, ..old(self)@.processes[i as int] },
            ));
            assert(mid =~= (StoreView { processes: mid.processes, ..old(self)@ }));
        }
        let remaining = self.read_processes_by_kind_key(kind_key.as_str());
        let mut any_running: bool = false;
        let mut j: usize = 0;
        while j < remaining.len()
            invariant
                0 <= j <= remaining.len(),
                any_running == exists|m: int| 0 <= m < j && (#[trigger] remaining@[m])@.running,
            decreases remaining.len() - j,
        {
            if remaining[j].running {
                any_running = true;
                proof {
                    assert(remaining@[j as int]@.running);
                }
            }
            j += 1;
        }
        proof {
            broadcast use vstd::seq_lib::group_filter_ensures;

            let pred = |p: ProcessDbView| p.kind_key == kind_key@;
            if any_running {
                let m = choose|m: int|
                    0 <= m < remaining@.len() && (#[trigger] remaining@[m])@.running;
                assert(remaining@.map_values(|p: ProcessDb| p@)[m] == remaining@[m]@);
                lemma_filter_subset(mid.processes, pred);
                assert(mid.processes.contains(remaining@[m]@));
                let w = choose|w: int|
                    0 <= w < mid.processes.len() && mid.processes[w] == remaining@[m]@;
                assert(has_running_process(mid.processes, kind_key@));
            } else {
                assert forall|m: int|
                    0 <= m < mid.processes.len() && (#[trigger] mid.processes[m]).kind_key
                        == kind_key@ implies !mid.processes[m].running by {
                    assert(pred(mid.processes[m]));
                    assert(mid.processes.filter(pred).contains(mid.processes[m]));
                    let w = choose|w: int|
                        0 <= w < mid.processes.filter(pred).len() && mid.processes.filter(
                            pred,
                        )[w] == mid.processes[m];
                    assert(remaining@[w]@ == mid.processes[m]);
                }
            }
        }
        let mut downgraded: bool = false;
        if !any_running {
            match self.find_status(kind_key.as_str()) {
                Some(si) => {
                    let st = self.statuses[si].status;
                    if matches!(st.actual, ObjPsStatusKind::Running) {
                        let next = ObjPsStatus {
                            wanted: st.wanted,
                            prev_wanted: st.prev_wanted,
                            actual: ObjPsStatusKind::Stopped,
                            prev_actual: st.actual,
                        };
                        self.statuses.set(
                            si,
                            ObjPsStatusDb { key: kind_key.clone(), status: next },
                        );
                        downgraded = true;
                        proof {
                            assert(mid.statuses[si as int].key == kind_key@);
                            assert(self@.statuses =~= mid.statuses.update(
                                si as int,
                                ObjPsStatusDbView { key: kind_key@, status: next },
                            ));
                            assert(self@ =~= (StoreView { statuses: self@.statuses, ..mid }));
                        }
                    }
                },
                None => {},
            }
        }
        proof {
            let post = self@;
            // The statuses of other keys are untouched.
            assert forall|k: Seq<char>| k != kind_key@ implies #[trigger] spec_status_of(
                post.statuses,
                k,
            ) == spec_status_of(old(self)@.statuses, k) by {
                assert forall|m: int|
                    0 <= m < old(self)@.statuses.len()
                        && (#[trigger] old(self)@.statuses[m]).key
                        == k implies post.statuses.contains(old(self)@.statuses[m]) by {
                    assert(post.statuses[m] == old(self)@.statuses[m]);
                }
                assert forall|m: int|
                    0 <= m < post.statuses.len() && (#[trigger] post.statuses[m]).key
                        == k implies old(self)@.statuses.contains(post.statuses[m]) by {
                    assert(post.statuses[m] == old(self)@.statuses[m]);
                }
                lemma_status_of_frame(old(self)@.statuses, post.statuses, k);
            }
            // The running observation is backed by a running process.
            assert forall|m: int|
                0 <= m < post.statuses.len() && (#[trigger] post.statuses[m]).status.actual
                    == ObjPsStatusKind::Running implies has_running_process(
                post.processes,
                post.statuses[m].key,
            ) by {
                if post.statuses[m].key == kind_key@ {
                    assert(has_running_process(mid.processes, kind_key@));
                } else {
                    assert(post.statuses[m] == old(self)@.statuses[m]);
                    let w = choose|w: int|
                        0 <= w < old(self)@.processes.len()
                            && (#[trigger] old(self)@.processes[w]).kind_key == old(
                            self,
                        )@.statuses[m].key && old(self)@.processes[w].running;
                    assert(old(self)@.processes[w].kind_key != kind_key@);
                    assert(w != i as int);
                    assert(post.processes[w] == old(self)@.processes[w]);
                }
            }
            assert forall|m: int|
                0 <= m < post.cargoes.len() implies has_status(
                post.statuses,
                (#[trigger] post.cargoes[m]).key,
            ) by {
                let w = choose|w: int|
                    0 <= w < old(self)@.statuses.len()
                        && (#[trigger] old(self)@.statuses[w]).key == old(
                        self,
                    )@.cargoes[m].key;
                assert(post.statuses[w].key == old(self)@.statuses[w].key);
            }
            assert forall|m: int|
                0 <= m < post.vms.len() implies has_status(
                post.statuses,
                (#[trigger] post.vms[m]).key,
            ) by {
                let w = choose|w: int|
                    0 <= w < old(self)@.statuses.len()
                        && (#[trigger] old(self)@.statuses[w]).key == old(self)@.vms[m].key;
                assert(post.statuses[w].key == old(self)@.statuses[w].key);
            }
            assert(post.inv());
        }
        Ok(())
    }
}

impl Store {
    /// Index of the node row with the name.
    fn find_node(&self, name: &str) -> (r: Option<usize>)
        ensures
            r is Some ==> 0 <= r->0 < self@.nodes.len() && self@.nodes[r->0 as int].name
                == name@,
            r is None ==> forall|i: int|
                0 <= i < self@.nodes.len() ==> (#[trigger] self@.nodes[i]).name != name@,
    {
        let k = name.to_owned();
        let mut i: usize = 0;
        while i < self.nodes.len()
            invariant
                0 <= i <= self@.nodes.len(),
                k@ == name@,
                forall|j: int| 0 <= j < i ==> (#[trigger] self@.nodes[j]).name != name@,
            decreases self@.nodes.len() - i,
        {
            if self.nodes[i].name.eq(&k) {
                assert(self@.nodes[i as int].name == name@);
                return Some(i);
            }
            assert(self@.nodes[i as int].name != name@);
            i += 1;
        }
        None
    }

    /// Record a node when none of the name is held yet, and hand back the
    /// row in force: the existing one, or the given one once appended.
    pub fn create_node_if_not_exists(&mut self, node: NodeDb) -> (r: NodeDb)
        requires
            old(self)@.inv(),
        ensures
            final(self)@.inv(),
            r@.name == node@.name,
            (exists|i: int|
                0 <= i < old(self)@.nodes.len() && (#[trigger] old(self)@.nodes[i]).name
                    == node@.name) ==> final(self)@ == old(self)@,
            !(exists|i: int|
                0 <= i < old(self)@.nodes.len() && (#[trigger] old(self)@.nodes[i]).name
                    == node@.name) ==> final(self)@ == (StoreView {
                nodes: old(self)@.nodes.push(node@),
                ..old(self)@
            }) && r@ == node@,
            exists|i: int|
                0 <= i < final(self)@.nodes.len() && (#[trigger] final(self)@.nodes[i]).name
                    == node@.name,
    {
        match self.find_node(node.name.as_str()) {
            Some(i) => self.nodes[i].clone(),
            None => {
                let out = node.clone();
                let ghost nv = node@;
                self.nodes.push(node);
                proof {
                    assert(self@.nodes =~= old(self)@.nodes.push(nv));
                    assert(self@ =~= (StoreView { nodes: self@.nodes, ..old(self)@ }));
                    assert(self@.nodes[self@.nodes.len() - 1].name == nv.name);
                }
                out
            },
        }
    }

    /// Register the local daemon as a node: its hostname with its gateway
    /// address and the registration instant are appended when no node of
    /// the hostname is held yet; re-registering at every start-up leaves
    /// the store untouched.
    pub fn register_node(&mut self, hostname: &str, gateway: &str, now: i64)
        requires
            old(self)@.inv(),
        ensures
            final(self)@.inv(),
            (exists|i: int|
                0 <= i < old(self)@.nodes.len() && (#[trigger] old(self)@.nodes[i]).name
                    == hostname@) ==> final(self)@ == old(self)@,
            !(exists|i: int|
                0 <= i < old(self)@.nodes.len() && (#[trigger] old(self)@.nodes[i]).name
                    == hostname@) ==> final(self)@ == (StoreView {
                nodes: old(self)@.nodes.push(
                    NodeDbView { name: hostname@, ip_address: gateway@, created_at: now },
                ),
                ..old(self)@
            }),
            exists|i: int|
                0 <= i < final(self)@.nodes.len() && (#[trigger] final(self)@.nodes[i]).name
                    == hostname@,
    {
        let node = NodeDb {
            name: hostname.to_owned(),
            ip_address: gateway.to_owned(),
            created_at: now,
        };
        proof {
            assert(node@ =~~= (NodeDbView {
                name: hostname@,
                ip_address: gateway@,
                created_at: now,
            }));
        }
        let _ = self.create_node_if_not_exists(node);
    }

    /// The spec revisions owned by a key, in insertion order: the object's
    /// history.
    pub fn read_specs_by_kind_key(&self, key: &str) -> (r: Vec<SpecDb>)
        ensures
            r@.map_values(|s: SpecDb| s@) == self@.specs.filter(
                |s: SpecDbView| s.kind_key == key@,
            ),
    {
        let k = key.to_owned();
        let mut out: Vec<SpecDb> = Vec::new();
        let mut i: usize = 0;
        while i < self.specs.len()
            invariant
                0 <= i <= self.specs.len(),
                k@ == key@,
                out@.map_values(|s: SpecDb| s@) == self@.specs.take(i as int).filter(
                    |s: SpecDbView| s.kind_key == key@,
                ),
            decreases self.specs.len() - i,
        {
            proof {
                lemma_take_succ(self@.specs, i as int);
                lemma_filter_push(
                    self@.specs.take(i as int),
                    |s: SpecDbView| s.kind_key == key@,
                    self@.specs[i as int],
                );
            }
            if self.specs[i].kind_key.eq(&k) {
                let ghost before = out@.map_values(|s: SpecDb| s@);
                out.push(self.specs[i].clone());
                proof {
                    assert(out@.map_values(|s: SpecDb| s@) =~= before.push(
                        self@.specs[i as int],
                    ));
                }
            }
            i += 1;
        }
        proof {
            assert(self@.specs.take(self.specs.len() as int) =~= self@.specs);
        }
        out
    }

    /// The first spec revision of a key written under a version, or
    /// `NotFound` when no revision matches.
    pub fn get_spec_version(&self, name: &str, version: &str) -> (r: Result<SpecDb, ApiError>)
        ensures
            r is Ok <==> exists|i: int|
                0 <= i < self@.specs.len() && (#[trigger] self@.specs[i]).kind_key == name@
                    && self@.specs[i].version == version@,
            r is Ok ==> exists|i: int|
                0 <= i < self@.specs.len() && #[trigger] self@.specs[i] == r->Ok_0@
                    && r->Ok_0@.kind_key == name@ && r->Ok_0@.version == version@,
            r is Err ==> r->Err_0.kind == ErrorKind::NotFound,
    {
        let k = name.to_owned();
        let v = version.to_owned();
        let mut i: usize = 0;
        while i < self.specs.len()
            invariant
                0 <= i <= self.specs.len(),
                k@ == name@,
                v@ == version@,
                forall|j: int|
                    0 <= j < i ==> !((#[trigger] self@.specs[j]).kind_key == name@
                        && self@.specs[j].version == version@),
            decreases self.specs.len() - i,
        {
            if self.specs[i].kind_key.eq(&k) && self.specs[i].version.eq(&v) {
                let row = self.specs[i].clone();
                proof {
                    assert(self@.specs[i as int].kind_key == name@);
                }
                return Ok(row);
            }
            i += 1;
        }
        Err(ApiError::new(ErrorKind::NotFound, String::from_str("spec version not found")))
    }

    /// Move a job's update instant, leaving everything else as it is.
    /// Fails with `NotFound` when the job does not exist.
    pub fn touch_job(&mut self, key: &str, now: i64) -> (r: Result<(), ApiError>)
        requires
            old(self)@.inv(),
        ensures
            final(self)@.inv(),
            r is Err ==> final(self)@ == old(self)@ && r->Err_0.kind == ErrorKind::NotFound,
            r is Ok <==> exists|i: int|
                0 <= i < old(self)@.jobs.len() && (#[trigger] old(self)@.jobs[i]).key == key@,
            r is Ok ==> exists|i: int|
                0 <= i < old(self)@.jobs.len() && (#[trigger] old(self)@.jobs[i]).key == key@
                    && final(self)@ == (StoreView {
                    jobs: old(self)@.jobs.update(
                        i,
                        JobDbView { updated_at: now, ..old(self)@.jobs[i] },
                    ),
                    ..old(self)@
                }),
    {
        let k = key.to_owned();
        let mut i: usize = 0;
        while i < self.jobs.len()
            invariant
                0 <= i <= self.jobs.len(),
                k@ == key@,
                self@ == old(self)@,
                old(self)@.inv(),
                forall|j: int| 0 <= j < i ==> (#[trigger] self@.jobs[j]).key != key@,
            decreases self.jobs.len() - i,
        {
            if self.jobs[i].key.eq(&k) {
                let row = JobDb {
                    key: self.jobs[i].key.clone(),
                    created_at: self.jobs[i].created_at,
                    updated_at: now,
                    data: self.jobs[i].data.clone(),
                    metadata: crate::container::clone_opt_string(&self.jobs[i].metadata),
                };
                proof {
                    assert(row@ =~~= (JobDbView { updated_at: now, ..self@.jobs[i as int] }));
                }
                self.jobs.set(i, row);
                proof {
                    assert(self@.jobs =~= old(self)@.jobs.update(
                        i as int,
                        JobDbView { updated_at: now, ..old(self)@.jobs[i as int] },
                    ));
                    assert(self@ =~= (StoreView { jobs: self@.jobs, ..old(self)@ }));
                    lemma_unique_by_pointwise(
                        old(self)@.jobs,
                        self@.jobs,
                        |j: JobDbView| j.key,
                    );
                }
                return Ok(());
            }
            assert(self@.jobs[i as int].key != key@);
            i += 1;
        }
        Err(ApiError::new(ErrorKind::NotFound, String::from_str("job not found")))
    }
}

/// The predicate keeping every machine row but one.
pub open spec fn vm_other(key: Seq<char>) -> spec_fn(VmDbView) -> bool {
    |v: VmDbView| v.key != key
}

impl Store {
    /// Read the machine row with the key, failing with `NotFound` when the
    /// machine does not exist.
    pub fn read_vm(&self, key: &str) -> (r: Result<VmDb, ApiError>)
        ensures
            r is Ok <==> has_vm(self@.vms, key@),
            r is Ok ==> exists|i: int|
                0 <= i < self@.vms.len() && #[trigger] self@.vms[i] == r->Ok_0@
                    && r->Ok_0@.key == key@,
            r is Err ==> r->Err_0.kind == ErrorKind::NotFound,
    {
        match self.find_vm(key) {
            Some(i) => Ok(self.vms[i].clone()),
            None => Err(
                ApiError::new(ErrorKind::NotFound, String::from_str("vm not found")),
            ),
        }
    }

    /// Create a virtual machine in a namespace.  Fails with
    /// `AlreadyExists` when an object of the composed key is present,
    /// leaving the store unchanged.  Otherwise the one new revision is
    /// appended, the machine row pointing at it is appended, and the
    /// machine's status is set to `Created`.
    pub fn create_vm(&mut self, namespace: &str, item: VmSpecPartial, version: &str, now: i64)
        -> (r: Result<VmDb, ApiError>)
        requires
            old(self)@.inv(),
        ensures
            final(self)@.inv(),
            r is Ok <==> !has_vm(
                old(self)@.vms,
                crate::text::spec_vm_key(namespace@, item@.name),
            ) && !has_cargo(
                old(self)@.cargoes,
                crate::text::spec_vm_key(namespace@, item@.name),
            ),
            r is Err ==> final(self)@ == old(self)@ && r->Err_0.kind
                == ErrorKind::AlreadyExists,
            r is Ok ==> final(self)@.specs.drop_last() == old(self)@.specs
                && final(self)@.specs.len() == old(self)@.specs.len() + 1,
            r is Ok ==> final(self)@.specs.last().kind_name == "Vm"@
                && final(self)@.specs.last().kind_key == crate::text::spec_vm_key(
                namespace@,
                item@.name,
            ) && final(self)@.specs.last().version == version@
                && final(self)@.specs.last().data == SpecDataView::Vm(item@),
            r is Ok ==> final(self)@.vms == old(self)@.vms.push(
                VmDbView {
                    key: crate::text::spec_vm_key(namespace@, item@.name),
                    created_at: now,
                    name: item@.name,
                    spec_key: final(self)@.specs.last().key,
                    namespace_name: namespace@,
                },
            ),
            r is Ok ==> r->Ok_0@ == final(self)@.vms.last(),
            r is Ok ==> spec_status_of(
                final(self)@.statuses,
                crate::text::spec_vm_key(namespace@, item@.name),
            ) == Some(
                ObjPsStatus {
                    wanted: ObjPsStatusKind::Created,
                    prev_wanted: ObjPsStatusKind::Created,
                    actual: ObjPsStatusKind::Created,
                    prev_actual: ObjPsStatusKind::Created,
                },
            ),
            final(self)@.namespaces == old(self)@.namespaces,
            final(self)@.cargoes == old(self)@.cargoes,
            final(self)@.resources == old(self)@.resources,
            final(self)@.processes == old(self)@.processes,
            final(self)@.nodes == old(self)@.nodes,
            final(self)@.secrets == old(self)@.secrets,
            final(self)@.jobs == old(self)@.jobs,
    {
        let key = crate::text::gen_vm_key(namespace, vm_name_of(&item));
        if self.find_vm(key.as_str()).is_some() {
            return Err(
                ApiError::new(ErrorKind::AlreadyExists, String::from_str("vm already exists")),
            );
        }
        if self.find_cargo(key.as_str()).is_some() {
            return Err(
                ApiError::new(
                    ErrorKind::AlreadyExists,
                    String::from_str("key used by a cargo"),
                ),
            );
        }
        let name = item.name.clone();
        let spec_row = SpecDb::try_from_vm_partial(key.as_str(), version, item);
        let spec_key = spec_row.key;
        self.specs.push(spec_row);
        proof {
            assert(self@.specs =~= old(self)@.specs.push(self@.specs.last()));
            assert(self@ =~= (StoreView { specs: self@.specs, ..old(self)@ }));
            assert forall|i: int|
                0 <= i < self@.cargoes.len() implies spec_refs_cargo(
                self@.specs,
                #[trigger] self@.cargoes[i],
            ) by {
                let j = choose|j: int|
                    0 <= j < old(self)@.specs.len() && spec_matches_cargo(
                        #[trigger] old(self)@.specs[j],
                        old(self)@.cargoes[i],
                    );
                assert(spec_matches_cargo(self@.specs[j], self@.cargoes[i]));
            }
            assert forall|i: int|
                0 <= i < self@.vms.len() implies spec_refs_vm(
                self@.specs,
                #[trigger] self@.vms[i],
            ) by {
                let j = choose|j: int|
                    0 <= j < old(self)@.specs.len() && spec_matches_vm(
                        #[trigger] old(self)@.specs[j],
                        old(self)@.vms[i],
                    );
                assert(spec_matches_vm(self@.specs[j], self@.vms[i]));
            }
            assert forall|i: int|
                0 <= i < self@.resources.len() implies spec_refs_resource(
                self@.specs,
                #[trigger] self@.resources[i],
            ) by {
                let j = choose|j: int|
                    0 <= j < old(self)@.specs.len() && spec_matches_resource(
                        #[trigger] old(self)@.specs[j],
                        old(self)@.resources[i],
                    );
                assert(spec_matches_resource(self@.specs[j], self@.resources[i]));
            }
            assert(self@.inv());
        }
        self.upsert_status(key.as_str(), ObjPsStatus::new_created());
        let ghost mid = self@;
        let row = VmDb {
            key: key.clone(),
            created_at: now,
            name,
            spec_key,
            namespace_name: namespace.to_owned(),
        };
        let out = row.clone();
        self.vms.push(row);
        proof {
            assert(self@.vms =~= mid.vms.push(self@.vms.last()));
            assert(self@ =~= (StoreView { vms: self@.vms, ..mid }));
            let n = self@.vms.len() - 1;
            assert(self@.vms[n].key == key@);
            let sn = self@.specs.len() - 1;
            assert(spec_matches_vm(self@.specs[sn], self@.vms[n]));
            assert forall|i: int|
                0 <= i < self@.vms.len() implies spec_refs_vm(
                self@.specs,
                #[trigger] self@.vms[i],
            ) && has_status(self@.statuses, self@.vms[i].key) by {
                if i < n {
                    assert(spec_refs_vm(mid.specs, mid.vms[i]));
                    assert(has_status(mid.statuses, mid.vms[i].key));
                    assert(self@.vms[i] == mid.vms[i]);
                }
            }
            assert(self@.inv());
            assert(final(self)@.vms =~= old(self)@.vms.push(
                VmDbView {
                    key: crate::text::spec_vm_key(namespace@, item@.name),
                    created_at: now,
                    name: item@.name,
                    spec_key: final(self)@.specs.last().key,
                    namespace_name: namespace@,
                },
            ));
        }
        Ok(out)
    }

    /// Replace a machine's spec wholesale: the partial payload becomes a
    /// new revision and the machine row points at it, the history keeping
    /// every older revision.  Fails with `NotFound` when the machine does
    /// not exist, leaving the store unchanged.
    pub fn put_vm_spec(&mut self, key: &str, item: VmSpecPartial, version: &str) -> (r: Result<
        VmDb,
        ApiError,
    >)
        requires
            old(self)@.inv(),
        ensures
            final(self)@.inv(),
            r is Ok <==> has_vm(old(self)@.vms, key@),
            r is Err ==> final(self)@ == old(self)@ && r->Err_0.kind == ErrorKind::NotFound,
            r is Ok ==> final(self)@.specs.drop_last() == old(self)@.specs
                && final(self)@.specs.len() == old(self)@.specs.len() + 1,
            r is Ok ==> final(self)@.specs.last().kind_name == "Vm"@
                && final(self)@.specs.last().kind_key == key@
                && final(self)@.specs.last().version == version@
                && final(self)@.specs.last().data == SpecDataView::Vm(item@),
            r is Ok ==> exists|vi: int|
                0 <= vi < old(self)@.vms.len() && (#[trigger] old(self)@.vms[vi]).key == key@
                    && final(self)@.vms == old(self)@.vms.update(
                    vi,
                    VmDbView { spec_key: final(self)@.specs.last().key, ..old(self)@.vms[vi] },
                ),
            final(self)@.namespaces == old(self)@.namespaces,
            final(self)@.cargoes == old(self)@.cargoes,
            final(self)@.resources == old(self)@.resources,
            final(self)@.processes == old(self)@.processes,
            final(self)@.nodes == old(self)@.nodes,
            final(self)@.secrets == old(self)@.secrets,
            final(self)@.statuses == old(self)@.statuses,
            final(self)@.jobs == old(self)@.jobs,
    {
        let vi = match self.find_vm(key) {
            Some(i) => i,
            None => {
                return Err(
                    ApiError::new(ErrorKind::NotFound, String::from_str("vm not found")),
                );
            },
        };
        let new_spec = SpecDb::try_from_vm_partial(key, version, item);
        let new_spec_key = new_spec.key;
        self.specs.push(new_spec);
        proof {
            assert(self@.specs =~= old(self)@.specs.push(self@.specs.last()));
            assert(self@ =~= (StoreView { specs: self@.specs, ..old(self)@ }));
        }
        let ghost mid = self@;
        let mut row = self.vms[vi].clone();
        row.spec_key = new_spec_key;
        let out = row.clone();
        self.vms.set(vi, row);
        proof {
            assert(self@.vms =~= mid.vms.update(
                vi as int,
                VmDbView { spec_key: new_spec_key, ..mid.vms[vi as int] },
            ));
            assert(self@ =~= (StoreView { vms: self@.vms, ..mid }));
            let n = self@.specs.len() - 1;
            assert(spec_matches_vm(self@.specs[n], self@.vms[vi as int]));
            assert forall|i: int|
                0 <= i < self@.vms.len() implies spec_refs_vm(
                self@.specs,
                #[trigger] self@.vms[i],
            ) && has_status(self@.statuses, self@.vms[i].key) by {
                assert(has_status(old(self)@.statuses, old(self)@.vms[i].key));
                if i != vi {
                    assert(self@.vms[i] == old(self)@.vms[i]);
                    let w = choose|w: int|
                        0 <= w < old(self)@.specs.len() && spec_matches_vm(
                            #[trigger] old(self)@.specs[w],
                            old(self)@.vms[i],
                        );
                    assert(spec_matches_vm(self@.specs[w], self@.vms[i]));
                }
            }
            assert forall|i: int|
                0 <= i < self@.cargoes.len() implies spec_refs_cargo(
                self@.specs,
                #[trigger] self@.cargoes[i],
            ) by {
                let w = choose|w: int|
                    0 <= w < old(self)@.specs.len() && spec_matches_cargo(
                        #[trigger] old(self)@.specs[w],
                        old(self)@.cargoes[i],
                    );
                assert(spec_matches_cargo(self@.specs[w], self@.cargoes[i]));
            }
            assert forall|i: int|
                0 <= i < self@.resources.len() implies spec_refs_resource(
                self@.specs,
                #[trigger] self@.resources[i],
            ) by {
                let w = choose|w: int|
                    0 <= w < old(self)@.specs.len() && spec_matches_resource(
                        #[trigger] old(self)@.specs[w],
                        old(self)@.resources[i],
                    );
                assert(spec_matches_resource(self@.specs[w], self@.resources[i]));
            }
            lemma_unique_by_pointwise(old(self)@.vms, self@.vms, |v: VmDbView| v.key);
            assert(self@.inv());
        }
        Ok(out)
    }

    /// Drop the machine row with the key.
    fn retain_vms_except(&mut self, key: &str)
        ensures
            final(self)@.vms == old(self)@.vms.filter(vm_other(key@)),
            final(self)@ == (StoreView { vms: final(self)@.vms, ..old(self)@ }),
    {
        let k = key.to_owned();
        let mut kept: Vec<VmDb> = Vec::new();
        let mut i: usize = 0;
        while i < self.vms.len()
            invariant
                0 <= i <= self.vms.len(),
                k@ == key@,
                self@ == old(self)@,
                kept@.map_values(|v: VmDb| v@) == old(self)@.vms.take(i as int).filter(
                    vm_other(key@),
                ),
            decreases self.vms.len() - i,
        {
            proof {
                lemma_take_succ(old(self)@.vms, i as int);
                lemma_filter_push(
                    old(self)@.vms.take(i as int),
                    vm_other(key@),
                    old(self)@.vms[i as int],
                );
            }
            if !self.vms[i].key.eq(&k) {
                let ghost before = kept@.map_values(|v: VmDb| v@);
                kept.push(self.vms[i].clone());
                proof {
                    assert(kept@.map_values(|v: VmDb| v@) =~= before.push(
                        old(self)@.vms[i as int],
                    ));
                }
            }
            i += 1;
        }
        proof {
            assert(old(self)@.vms.take(self.vms.len() as int) =~= old(self)@.vms);
        }
        self.vms = kept;
        proof {
            assert(self@ =~= (StoreView { vms: self@.vms, ..old(self)@ }));
        }
    }

    /// Delete a virtual machine: its process rows, every spec revision of
    /// its own, its status row and the machine row itself are removed;
    /// every other object keeps its rows.  Fails with `NotFound` when the
    /// machine does not exist, leaving the store unchanged.
    pub fn delete_vm(&mut self, key: &str) -> (r: Result<(), ApiError>)
        requires
            old(self)@.inv(),
        ensures
            final(self)@.inv(),
            r is Ok <==> has_vm(old(self)@.vms, key@),
            r is Err ==> final(self)@ == old(self)@ && r->Err_0.kind == ErrorKind::NotFound,
            r is Ok ==> final(self)@.specs == old(self)@.specs.filter(keeps_spec(key@, "Vm"@)),
            r is Ok ==> final(self)@.vms == old(self)@.vms.filter(vm_other(key@)),
            r is Ok ==> final(self)@.processes == old(self)@.processes.filter(
                process_other(key@),
            ),
            r is Ok ==> final(self)@.statuses == old(self)@.statuses.filter(
                status_other(key@),
            ),
            r is Ok ==> !has_vm(final(self)@.vms, key@),
            r is Ok ==> forall|i: int|
                0 <= i < final(self)@.specs.len() ==> !((#[trigger] final(self)@.specs[i]).kind_key
                    == key@ && final(self)@.specs[i].kind_name == "Vm"@),
            final(self)@.namespaces == old(self)@.namespaces,
            final(self)@.cargoes == old(self)@.cargoes,
            final(self)@.resources == old(self)@.resources,
            final(self)@.nodes == old(self)@.nodes,
            final(self)@.secrets == old(self)@.secrets,
            final(self)@.jobs == old(self)@.jobs,
    {
        broadcast use vstd::seq_lib::group_filter_ensures;

        let vi = match self.find_vm(key) {
            Some(i) => i,
            None => {
                return Err(
                    ApiError::new(ErrorKind::NotFound, String::from_str("vm not found")),
                );
            },
        };
        self.retain_processes_except(key);
        self.retain_specs_except(key, "Vm");
        self.retain_statuses_except(key);
        self.retain_vms_except(key);
        proof {
            reveal_strlit("Cargo");
            reveal_strlit("Vm");
            reveal_strlit("Resource");
            assert("Cargo"@.len() == 5);
            assert("Vm"@.len() == 2);
            assert("Resource"@.len() == 8);
            let pre = old(self)@;
            let post = self@;
            lemma_filter_unique_by(pre.vms, vm_other(key@), |v: VmDbView| v.key);
            lemma_filter_unique_by(
                pre.processes,
                process_other(key@),
                |p: ProcessDbView| p.key,
            );
            lemma_filter_unique_by(
                pre.statuses,
                status_other(key@),
                |s: ObjPsStatusDbView| s.key,
            );
            lemma_filter_subset(pre.vms, vm_other(key@));
            lemma_filter_subset(pre.processes, process_other(key@));
            lemma_filter_subset(pre.statuses, status_other(key@));
            lemma_filter_subset(pre.specs, keeps_spec(key@, "Vm"@));
            assert forall|i: int|
                0 <= i < post.vms.len() implies spec_refs_vm(
                post.specs,
                #[trigger] post.vms[i],
            ) && has_status(post.statuses, post.vms[i].key) by {
                let v = post.vms[i];
                assert(pre.vms.contains(v));
                let oi = choose|oi: int| 0 <= oi < pre.vms.len() && pre.vms[oi] == v;
                assert(v.key != key@);
                let sw = choose|sw: int|
                    0 <= sw < pre.specs.len() && spec_matches_vm(#[trigger] pre.specs[sw], v);
                assert(keeps_spec(key@, "Vm"@)(pre.specs[sw]));
                assert(pre.specs.filter(keeps_spec(key@, "Vm"@)).contains(pre.specs[sw]));
                let stw = choose|stw: int|
                    0 <= stw < pre.statuses.len() && (#[trigger] pre.statuses[stw]).key
                        == v.key;
                assert(status_other(key@)(pre.statuses[stw]));
                assert(pre.statuses.filter(status_other(key@)).contains(pre.statuses[stw]));
            }
            assert forall|i: int|
                0 <= i < post.cargoes.len() implies spec_refs_cargo(
                post.specs,
                #[trigger] post.cargoes[i],
            ) && has_status(post.statuses, post.cargoes[i].key) by {
                let c = post.cargoes[i];
                assert(pre.cargoes[i] == c);
                assert(c.key != key@) by {
                    assert(pre.vms[vi as int].key == key@);
                }
                let sw = choose|sw: int|
                    0 <= sw < pre.specs.len() && spec_matches_cargo(
                        #[trigger] pre.specs[sw],
                        c,
                    );
                assert(pre.specs[sw].kind_name == "Cargo"@);
                assert(keeps_spec(key@, "Vm"@)(pre.specs[sw]));
                assert(pre.specs.filter(keeps_spec(key@, "Vm"@)).contains(pre.specs[sw]));
                let stw = choose|stw: int|
                    0 <= stw < pre.statuses.len() && (#[trigger] pre.statuses[stw]).key
                        == c.key;
                assert(status_other(key@)(pre.statuses[stw]));
                assert(pre.statuses.filter(status_other(key@)).contains(pre.statuses[stw]));
            }
            assert forall|i: int|
                0 <= i < post.resources.len() implies spec_refs_resource(
                post.specs,
                #[trigger] post.resources[i],
            ) by {
                let rr = post.resources[i];
                assert(pre.resources[i] == rr);
                let sw = choose|sw: int|
                    0 <= sw < pre.specs.len() && spec_matches_resource(
                        #[trigger] pre.specs[sw],
                        rr,
                    );
                assert(pre.specs[sw].kind_name == "Resource"@);
                assert(keeps_spec(key@, "Vm"@)(pre.specs[sw]));
                assert(pre.specs.filter(keeps_spec(key@, "Vm"@)).contains(pre.specs[sw]));
            }
            assert forall|i: int|
                0 <= i < post.statuses.len() && (#[trigger] post.statuses[i]).status.actual
                    == ObjPsStatusKind::Running implies has_running_process(
                post.processes,
                post.statuses[i].key,
            ) by {
                let st = post.statuses[i];
                assert(pre.statuses.contains(st));
                let oi = choose|oi: int|
                    0 <= oi < pre.statuses.len() && pre.statuses[oi] == st;
                assert(st.key != key@);
                let pw = choose|pw: int|
                    0 <= pw < pre.processes.len() && (#[trigger] pre.processes[pw]).kind_key
                        == st.key && pre.processes[pw].running;
                assert(process_other(key@)(pre.processes[pw]));
                assert(pre.processes.filter(process_other(key@)).contains(pre.processes[pw]));
            }
            assert forall|i: int, j: int|
                0 <= i < post.cargoes.len() && 0 <= j < post.vms.len() implies (
            #[trigger] post.cargoes[i]).key != (#[trigger] post.vms[j]).key by {
                let v = post.vms[j];
                assert(pre.vms.contains(v));
                let oj = choose|oj: int| 0 <= oj < pre.vms.len() && pre.vms[oj] == v;
                assert(pre.cargoes[i] == post.cargoes[i]);
            }
            assert(!has_vm(post.vms, key@));
            assert(post.inv());
        }
        Ok(())
    }
}

/// Whether a resource row with the key exists.
pub open spec fn has_resource(resources: Seq<ResourceDbView>, key: Seq<char>) -> bool {
    exists|i: int| 0 <= i < resources.len() && (#[trigger] resources[i]).key == key
}

/// The predicate keeping every resource row but one.
pub open spec fn resource_other(key: Seq<char>) -> spec_fn(ResourceDbView) -> bool {
    |r: ResourceDbView| r.key != key
}

impl Store {
    /// Index of the resource row with the key.
    fn find_resource(&self, key: &str) -> (r: Option<usize>)
        ensures
            r is Some ==> 0 <= r->0 < self@.resources.len() && self@.resources[
                r->0 as int
            ].key == key@,
            r is None ==> forall|i: int|
                0 <= i < self@.resources.len() ==> (#[trigger] self@.resources[i]).key
                    != key@,
    {
        let k = key.to_owned();
        let mut i: usize = 0;
        while i < self.resources.len()
            invariant
                0 <= i <= self@.resources.len(),
                k@ == key@,
                forall|j: int| 0 <= j < i ==> (#[trigger] self@.resources[j]).key != key@,
            decreases self@.resources.len() - i,
        {
            if self.resources[i].key.eq(&k) {
                assert(self@.resources[i as int].key == key@);
                return Some(i);
            }
            assert(self@.resources[i as int].key != key@);
            i += 1;
        }
        None
    }

    /// Read the resource row with the key, failing with `NotFound` when
    /// the resource does not exist.
    pub fn inspect_resource(&self, key: &str) -> (r: Result<ResourceDb, ApiError>)
        ensures
            r is Ok <==> has_resource(self@.resources, key@),
            r is Ok ==> exists|i: int|
                0 <= i < self@.resources.len() && #[trigger] self@.resources[i] == r->Ok_0@
                    && r->Ok_0@.key == key@,
            r is Err ==> r->Err_0.kind == ErrorKind::NotFound,
    {
        match self.find_resource(key) {
            Some(i) => Ok(self.resources[i].clone()),
            None => Err(
                ApiError::new(ErrorKind::NotFound, String::from_str("resource not found")),
            ),
        }
    }

    /// Create a resource.  Fails with `AlreadyExists` when a resource of
    /// the key is present, leaving the store unchanged.  Otherwise the one
    /// new revision is appended and the resource row pointing at it is
    /// appended.
    pub fn create_resource(
        &mut self,
        key: &str,
        kind: &str,
        data: String,
        version: &str,
        now: i64,
    ) -> (r: Result<ResourceDb, ApiError>)
        requires
            old(self)@.inv(),
        ensures
            final(self)@.inv(),
            r is Ok <==> !has_resource(old(self)@.resources, key@),
            r is Err ==> final(self)@ == old(self)@ && r->Err_0.kind
                == ErrorKind::AlreadyExists,
            r is Ok ==> final(self)@.specs.drop_last() == old(self)@.specs
                && final(self)@.specs.len() == old(self)@.specs.len() + 1,
            r is Ok ==> final(self)@.specs.last().kind_name == "Resource"@
                && final(self)@.specs.last().kind_key == key@
                && final(self)@.specs.last().version == version@
                && final(self)@.specs.last().data == SpecDataView::Json(data@),
            r is Ok ==> final(self)@.resources == old(self)@.resources.push(
                ResourceDbView {
                    key: key@,
                    created_at: now,
                    kind: kind@,
                    spec_key: final(self)@.specs.last().key,
                },
            ),
            r is Ok ==> r->Ok_0@ == final(self)@.resources.last(),
            final(self)@.namespaces == old(self)@.namespaces,
            final(self)@.cargoes == old(self)@.cargoes,
            final(self)@.vms == old(self)@.vms,
            final(self)@.processes == old(self)@.processes,
            final(self)@.nodes == old(self)@.nodes,
            final(self)@.secrets == old(self)@.secrets,
            final(self)@.statuses == old(self)@.statuses,
            final(self)@.jobs == old(self)@.jobs,
    {
        if self.find_resource(key).is_some() {
            return Err(
                ApiError::new(
                    ErrorKind::AlreadyExists,
                    String::from_str("resource already exists"),
                ),
            );
        }
        let spec_row = SpecDb::try_from_resource(key, version, data);
        let spec_key = spec_row.key;
        self.specs.push(spec_row);
        proof {
            assert(self@.specs =~= old(self)@.specs.push(self@.specs.last()));
            assert(self@ =~= (StoreView { specs: self@.specs, ..old(self)@ }));
            assert forall|i: int|
                0 <= i < self@.cargoes.len() implies spec_refs_cargo(
                self@.specs,
                #[trigger] self@.cargoes[i],
            ) by {
                let j = choose|j: int|
                    0 <= j < old(self)@.specs.len() && spec_matches_cargo(
                        #[trigger] old(self)@.specs[j],
                        old(self)@.cargoes[i],
                    );
                assert(spec_matches_cargo(self@.specs[j], self@.cargoes[i]));
            }
            assert forall|i: int|
                0 <= i < self@.vms.len() implies spec_refs_vm(
                self@.specs,
                #[trigger] self@.vms[i],
            ) by {
                let j = choose|j: int|
                    0 <= j < old(self)@.specs.len() && spec_matches_vm(
                        #[trigger] old(self)@.specs[j],
                        old(self)@.vms[i],
                    );
                assert(spec_matches_vm(self@.specs[j], self@.vms[i]));
            }
            assert forall|i: int|
                0 <= i < self@.resources.len() implies spec_refs_resource(
                self@.specs,
                #[trigger] self@.resources[i],
            ) by {
                let j = choose|j: int|
                    0 <= j < old(self)@.specs.len() && spec_matches_resource(
                        #[trigger] old(self)@.specs[j],
                        old(self)@.resources[i],
                    );
                assert(spec_matches_resource(self@.specs[j], self@.resources[i]));
            }
            assert(self@.inv());
        }
        let ghost mid = self@;
        let row = ResourceDb {
            key: key.to_owned(),
            created_at: now,
            kind: kind.to_owned(),
            spec_key,
        };
        let out = row.clone();
        self.resources.push(row);
        proof {
            assert(self@.resources =~= mid.resources.push(self@.resources.last()));
            assert(self@ =~= (StoreView { resources: self@.resources, ..mid }));
            let n = self@.resources.len() - 1;
            let sn = self@.specs.len() - 1;
            assert(spec_matches_resource(self@.specs[sn], self@.resources[n]));
            assert forall|i: int|
                0 <= i < self@.resources.len() implies spec_refs_resource(
                self@.specs,
                #[trigger] self@.resources[i],
            ) by {
                if i < n {
                    assert(spec_refs_resource(mid.specs, mid.resources[i]));
                    assert(self@.resources[i] == mid.resources[i]);
                }
            }
            assert(self@.inv());
        }
        Ok(out)
    }

    /// Patch a resource: the payload becomes a new revision and the
    /// resource row points at it, the history keeping every older
    /// revision.  Fails with `NotFound` when the resource does not exist,
    /// leaving the store unchanged.
    pub fn patch_resource(&mut self, key: &str, data: String, version: &str) -> (r: Result<
        ResourceDb,
        ApiError,
    >)
        requires
            old(self)@.inv(),
        ensures
            final(self)@.inv(),
            r is Ok <==> has_resource(old(self)@.resources, key@),
            r is Err ==> final(self)@ == old(self)@ && r->Err_0.kind == ErrorKind::NotFound,
            r is Ok ==> final(self)@.specs.drop_last() == old(self)@.specs
                && final(self)@.specs.len() == old(self)@.specs.len() + 1,
            r is Ok ==> final(self)@.specs.last().kind_name == "Resource"@
                && final(self)@.specs.last().kind_key == key@
                && final(self)@.specs.last().version == version@
                && final(self)@.specs.last().data == SpecDataView::Json(data@),
            r is Ok ==> exists|ri: int|
                0 <= ri < old(self)@.resources.len()
                    && (#[trigger] old(self)@.resources[ri]).key == key@
                    && final(self)@.resources == old(self)@.resources.update(
                    ri,
                    ResourceDbView {
                        spec_key: final(self)@.specs.last().key,
                        ..old(self)@.resources[ri]
                    },
                ),
            final(self)@.namespaces == old(self)@.namespaces,
            final(self)@.cargoes == old(self)@.cargoes,
            final(self)@.vms == old(self)@.vms,
            final(self)@.processes == old(self)@.processes,
            final(self)@.nodes == old(self)@.nodes,
            final(self)@.secrets == old(self)@.secrets,
            final(self)@.statuses == old(self)@.statuses,
            final(self)@.jobs == old(self)@.jobs,
    {
        let ri = match self.find_resource(key) {
            Some(i) => i,
            None => {
                return Err(
                    ApiError::new(ErrorKind::NotFound, String::from_str("resource not found")),
                );
            },
        };
        let spec_row = SpecDb::try_from_resource(key, version, data);
        let spec_key = spec_row.key;
        self.specs.push(spec_row);
        proof {
            assert(self@.specs =~= old(self)@.specs.push(self@.specs.last()));
            assert(self@ =~= (StoreView { specs: self@.specs, ..old(self)@ }));
        }
        let ghost mid = self@;
        let mut row = self.resources[ri].clone();
        row.spec_key = spec_key;
        let out = row.clone();
        self.resources.set(ri, row);
        proof {
            assert(self@.resources =~= mid.resources.update(
                ri as int,
                ResourceDbView { spec_key, ..mid.resources[ri as int] },
            ));
            assert(self@ =~= (StoreView { resources: self@.resources, ..mid }));
            let n = self@.specs.len() - 1;
            assert(spec_matches_resource(self@.specs[n], self@.resources[ri as int]));
            assert forall|i: int|
                0 <= i < self@.resources.len() implies spec_refs_resource(
                self@.specs,
                #[trigger] self@.resources[i],
            ) by {
                if i != ri {
                    assert(self@.resources[i] == old(self)@.resources[i]);
                    let w = choose|w: int|
                        0 <= w < old(self)@.specs.len() && spec_matches_resource(
                            #[trigger] old(self)@.specs[w],
                            old(self)@.resources[i],
                        );
                    assert(spec_matches_resource(self@.specs[w], self@.resources[i]));
                }
            }
            assert forall|i: int|
                0 <= i < self@.cargoes.len() implies spec_refs_cargo(
                self@.specs,
                #[trigger] self@.cargoes[i],
            ) by {
                let w = choose|w: int|
                    0 <= w < old(self)@.specs.len() && spec_matches_cargo(
                        #[trigger] old(self)@.specs[w],
                        old(self)@.cargoes[i],
                    );
                assert(spec_matches_cargo(self@.specs[w], self@.cargoes[i]));
            }
            assert forall|i: int|
                0 <= i < self@.vms.len() implies spec_refs_vm(
                self@.specs,
                #[trigger] self@.vms[i],
            ) by {
                let w = choose|w: int|
                    0 <= w < old(self)@.specs.len() && spec_matches_vm(
                        #[trigger] old(self)@.specs[w],
                        old(self)@.vms[i],
                    );
                assert(spec_matches_vm(self@.specs[w], self@.vms[i]));
            }
            lemma_unique_by_pointwise(
                old(self)@.resources,
                self@.resources,
                |rr: ResourceDbView| rr.key,
            );
            assert(self@.inv());
        }
        Ok(out)
    }

    /// Apply a resource payload by name: a missing resource is created, an
    /// existing one is patched.  Either way one new revision is appended
    /// and the resource row of the key points at it afterwards.
    pub fn create_or_patch_resource(
        &mut self,
        key: &str,
        kind: &str,
        data: String,
        version: &str,
        now: i64,
    ) -> (r: Result<ResourceDb, ApiError>)
        requires
            old(self)@.inv(),
        ensures
            final(self)@.inv(),
            r is Ok,
            has_resource(final(self)@.resources, key@),
            final(self)@.specs.drop_last() == old(self)@.specs && final(self)@.specs.len()
                == old(self)@.specs.len() + 1,
            !has_resource(old(self)@.resources, key@) ==> final(self)@.resources == old(
                self,
            )@.resources.push(
                ResourceDbView {
                    key: key@,
                    created_at: now,
                    kind: kind@,
                    spec_key: final(self)@.specs.last().key,
                },
            ),
            has_resource(old(self)@.resources, key@) ==> exists|ri: int|
                0 <= ri < old(self)@.resources.len()
                    && (#[trigger] old(self)@.resources[ri]).key == key@
                    && final(self)@.resources == old(self)@.resources.update(
                    ri,
                    ResourceDbView {
                        spec_key: final(self)@.specs.last().key,
                        ..old(self)@.resources[ri]
                    },
                ),
            final(self)@.namespaces == old(self)@.namespaces,
            final(self)@.cargoes == old(self)@.cargoes,
            final(self)@.vms == old(self)@.vms,
            final(self)@.processes == old(self)@.processes,
            final(self)@.statuses == old(self)@.statuses,
            final(self)@.secrets == old(self)@.secrets,
            final(self)@.nodes == old(self)@.nodes,
            final(self)@.jobs == old(self)@.jobs,
    {
        let exists_already = self.find_resource(key).is_some();
        let r = if exists_already {
            self.patch_resource(key, data, version)
        } else {
            self.create_resource(key, kind, data, version, now)
        };
        proof {
            if has_resource(old(self)@.resources, key@) {
                let ri = choose|ri: int|
                    0 <= ri < old(self)@.resources.len()
                        && (#[trigger] old(self)@.resources[ri]).key == key@
                        && final(self)@.resources == old(self)@.resources.update(
                        ri,
                        ResourceDbView {
                            spec_key: final(self)@.specs.last().key,
                            ..old(self)@.resources[ri]
                        },
                    );
                assert(self@.resources[ri].key == key@);
            } else {
                assert(self@.resources[self@.resources.len() - 1].key == key@);
            }
        }
        match r {
            Ok(row) => Ok(row),
            Err(e) => {
                proof {
                    assert(false);
                }
                Err(e)
            },
        }
    }

    /// Drop the resource row with the key.
    fn retain_resources_except(&mut self, key: &str)
        ensures
            final(self)@.resources == old(self)@.resources.filter(resource_other(key@)),
            final(self)@ == (StoreView { resources: final(self)@.resources, ..old(self)@ }),
    {
        let k = key.to_owned();
        let mut kept: Vec<ResourceDb> = Vec::new();
        let mut i: usize = 0;
        while i < self.resources.len()
            invariant
                0 <= i <= self.resources.len(),
                k@ == key@,
                self@ == old(self)@,
                kept@.map_values(|r: ResourceDb| r@) == old(self)@.resources.take(
                    i as int,
                ).filter(resource_other(key@)),
            decreases self.resources.len() - i,
        {
            proof {
                lemma_take_succ(old(self)@.resources, i as int);
                lemma_filter_push(
                    old(self)@.resources.take(i as int),
                    resource_other(key@),
                    old(self)@.resources[i as int],
                );
            }
            if !self.resources[i].key.eq(&k) {
                let ghost before = kept@.map_values(|r: ResourceDb| r@);
                kept.push(self.resources[i].clone());
                proof {
                    assert(kept@.map_values(|r: ResourceDb| r@) =~= before.push(
                        old(self)@.resources[i as int],
                    ));
                }
            }
            i += 1;
        }
        proof {
            assert(old(self)@.resources.take(self.resources.len() as int) =~= old(
                self,
            )@.resources);
        }
        self.resources = kept;
        proof {
            assert(self@ =~= (StoreView { resources: self@.resources, ..old(self)@ }));
        }
    }

    /// Delete a resource: every spec revision of its own and the resource
    /// row are removed; every other object keeps its rows.  Fails with
    /// `NotFound` when the resource does not exist, leaving the store
    /// unchanged.
    pub fn delete_resource(&mut self, key: &str) -> (r: Result<(), ApiError>)
        requires
            old(self)@.inv(),
        ensures
            final(self)@.inv(),
            r is Ok <==> has_resource(old(self)@.resources, key@),
            r is Err ==> final(self)@ == old(self)@ && r->Err_0.kind == ErrorKind::NotFound,
            r is Ok ==> final(self)@.specs == old(self)@.specs.filter(
                keeps_spec(key@, "Resource"@),
            ),
            r is Ok ==> final(self)@.resources == old(self)@.resources.filter(
                resource_other(key@),
            ),
            r is Ok ==> !has_resource(final(self)@.resources, key@),
            r is Ok ==> forall|i: int|
                0 <= i < final(self)@.specs.len() ==> !((#[trigger] final(self)@.specs[i]).kind_key
                    == key@ && final(self)@.specs[i].kind_name == "Resource"@),
            final(self)@.namespaces == old(self)@.namespaces,
            final(self)@.cargoes == old(self)@.cargoes,
            final(self)@.vms == old(self)@.vms,
            final(self)@.processes == old(self)@.processes,
            final(self)@.nodes == old(self)@.nodes,
            final(self)@.secrets == old(self)@.secrets,
            final(self)@.statuses == old(self)@.statuses,
            final(self)@.jobs == old(self)@.jobs,
    {
        broadcast use vstd::seq_lib::group_filter_ensures;

        if self.find_resource(key).is_none() {
            return Err(
                ApiError::new(ErrorKind::NotFound, String::from_str("resource not found")),
            );
        }
        self.retain_specs_except(key, "Resource");
        self.retain_resources_except(key);
        proof {
            reveal_strlit("Cargo");
            reveal_strlit("Vm");
            reveal_strlit("Resource");
            assert("Cargo"@.len() == 5);
            assert("Vm"@.len() == 2);
            assert("Resource"@.len() == 8);
            let pre = old(self)@;
            let post = self@;
            lemma_filter_unique_by(
                pre.resources,
                resource_other(key@),
                |r: ResourceDbView| r.key,
            );
            lemma_filter_subset(pre.resources, resource_other(key@));
            lemma_filter_subset(pre.specs, keeps_spec(key@, "Resource"@));
            assert forall|i: int|
                0 <= i < post.resources.len() implies spec_refs_resource(
                post.specs,
                #[trigger] post.resources[i],
            ) by {
                let rr = post.resources[i];
                assert(pre.resources.contains(rr));
                let oi = choose|oi: int|
                    0 <= oi < pre.resources.len() && pre.resources[oi] == rr;
                assert(rr.key != key@);
                let sw = choose|sw: int|
                    0 <= sw < pre.specs.len() && spec_matches_resource(
                        #[trigger] pre.specs[sw],
                        rr,
                    );
                assert(keeps_spec(key@, "Resource"@)(pre.specs[sw]));
                assert(pre.specs.filter(keeps_spec(key@, "Resource"@)).contains(
                    pre.specs[sw],
                ));
            }
            assert forall|i: int|
                0 <= i < post.cargoes.len() implies spec_refs_cargo(
                post.specs,
                #[trigger] post.cargoes[i],
            ) by {
                let c = post.cargoes[i];
                assert(pre.cargoes[i] == c);
                let sw = choose|sw: int|
                    0 <= sw < pre.specs.len() && spec_matches_cargo(
                        #[trigger] pre.specs[sw],
                        c,
                    );
                assert(pre.specs[sw].kind_name == "Cargo"@);
                assert(keeps_spec(key@, "Resource"@)(pre.specs[sw]));
                assert(pre.specs.filter(keeps_spec(key@, "Resource"@)).contains(
                    pre.specs[sw],
                ));
            }
            assert forall|i: int|
                0 <= i < post.vms.len() implies spec_refs_vm(
                post.specs,
                #[trigger] post.vms[i],
            ) by {
                let v = post.vms[i];
                assert(pre.vms[i] == v);
                let sw = choose|sw: int|
                    0 <= sw < pre.specs.len() && spec_matches_vm(#[trigger] pre.specs[sw], v);
                assert(pre.specs[sw].kind_name == "Vm"@);
                assert(keeps_spec(key@, "Resource"@)(pre.specs[sw]));
                assert(pre.specs.filter(keeps_spec(key@, "Resource"@)).contains(
                    pre.specs[sw],
                ));
            }
            assert(!has_resource(post.resources, key@));
            assert(post.inv());
        }
        Ok(())
    }
}

/// The name of a partial machine spec, read without consuming it.
fn vm_name_of(item: &VmSpecPartial) -> (r: &str)
    ensures
        r@ == item@.name,
{
    item.name.as_str()
}

/// The name of a partial cargo spec, read without consuming it.
fn cargo_name_of(item: &CargoSpecPartial) -> (r: &str)
    ensures
        r@ == item@.name,
{
    item.name.as_str()
}

/// Two status tables that hold the same rows for a key hold the same status
/// for it.
proof fn lemma_status_of_frame(
    a: Seq<ObjPsStatusDbView>,
    b: Seq<ObjPsStatusDbView>,
    k: Seq<char>,
)
    requires
        forall|i: int| 0 <= i < a.len() && (#[trigger] a[i]).key == k ==> b.contains(a[i]),
        forall|i: int| 0 <= i < b.len() && (#[trigger] b[i]).key == k ==> a.contains(b[i]),
        unique_by(a, |s: ObjPsStatusDbView| s.key),
        unique_by(b, |s: ObjPsStatusDbView| s.key),
    ensures
        spec_status_of(a, k) == spec_status_of(b, k),
{
    if has_status(a, k) {
        let i = choose|i: int| 0 <= i < a.len() && (#[trigger] a[i]).key == k;
        assert(b.contains(a[i]));
        let j = choose|j: int| 0 <= j < b.len() && b[j] == a[i];
        assert(has_status(b, k));
        let jj = choose|jj: int| 0 <= jj < b.len() && (#[trigger] b[jj]).key == k;
        assert(b[jj].key == b[j].key);
        assert(jj == j);
    } else {
        if has_status(b, k) {
            let j = choose|j: int| 0 <= j < b.len() && (#[trigger] b[j]).key == k;
            assert(a.contains(b[j]));
            let i = choose|i: int| 0 <= i < a.len() && a[i] == b[j];
            assert(has_status(a, k));
        }
    }
}

/// After replacing the row at one index by a row of the given key, every
/// other key keeps its status.
proof fn lemma_status_tables_agree(
    pre: StoreView,
    post: StoreView,
    idx: int,
    key: Seq<char>,
    status: ObjPsStatus,
)
    requires
        pre.inv(),
        0 <= idx < pre.statuses.len(),
        pre.statuses[idx].key == key,
        post.statuses == pre.statuses.update(
            idx,
            ObjPsStatusDbView { key, status },
        ),
    ensures
        forall|k: Seq<char>|
            k != key ==> #[trigger] spec_status_of(post.statuses, k) == spec_status_of(
                pre.statuses,
                k,
            ),
        spec_status_of(post.statuses, key) == Some(status),
        unique_by(post.statuses, |s: ObjPsStatusDbView| s.key),
{
    assert forall|k: Seq<char>| k != key implies #[trigger] spec_status_of(post.statuses, k)
        == spec_status_of(pre.statuses, k) by {
        assert forall|i: int|
            0 <= i < pre.statuses.len() && (#[trigger] pre.statuses[i]).key
                == k implies post.statuses.contains(pre.statuses[i]) by {
            assert(i != idx);
            assert(post.statuses[i] == pre.statuses[i]);
        }
        assert forall|i: int|
            0 <= i < post.statuses.len() && (#[trigger] post.statuses[i]).key
                == k implies pre.statuses.contains(post.statuses[i]) by {
            assert(i != idx);
            assert(post.statuses[i] == pre.statuses[i]);
        }
        lemma_status_of_frame(pre.statuses, post.statuses, k);
    }
    assert(post.statuses[idx].key == key);
    let j = choose|j: int|
        0 <= j < post.statuses.len() && (#[trigger] post.statuses[j]).key == key;
    assert(post.statuses[j].key == post.statuses[idx].key);
    assert(j == idx);
}

/// Filtering one pushed element: the element stays exactly when the
/// predicate holds of it.
pub proof fn lemma_filter_push<A>(s: Seq<A>, pred: spec_fn(A) -> bool, x: A)
    ensures
        s.push(x).filter(pred) == if pred(x) {
            s.filter(pred).push(x)
        } else {
            s.filter(pred)
        },
{
    reveal(Seq::filter);
    assert(s.push(x).drop_last() =~= s);
    assert(s.push(x).last() == x);
}

/// The set of keys of a cargo table.
pub open spec fn cargo_key_set(cargoes: Seq<CargoDbView>) -> Set<Seq<char>> {
    Set::new(
        |k: Seq<char>|
            exists|i: int| 0 <= i < cargoes.len() && (#[trigger] cargoes[i]).key == k,
    )
}

/// The set of keys of a resource table.
pub open spec fn resource_key_set(resources: Seq<ResourceDbView>) -> Set<Seq<char>> {
    Set::new(
        |k: Seq<char>|
            exists|i: int| 0 <= i < resources.len() && (#[trigger] resources[i]).key == k,
    )
}

/// Appending a cargo row adds exactly its key to the key set.
pub proof fn lemma_cargo_keys_push(cargoes: Seq<CargoDbView>, row: CargoDbView)
    ensures
        cargo_key_set(cargoes.push(row)) == cargo_key_set(cargoes).insert(row.key),
{
    let a = cargo_key_set(cargoes.push(row));
    let b = cargo_key_set(cargoes).insert(row.key);
    assert forall|k: Seq<char>| a.contains(k) implies b.contains(k) by {
        let i = choose|i: int|
            0 <= i < cargoes.push(row).len() && (#[trigger] cargoes.push(row)[i]).key == k;
        if i < cargoes.len() {
            assert(cargoes[i].key == k);
        }
    }
    assert forall|k: Seq<char>| b.contains(k) implies a.contains(k) by {
        if k == row.key {
            assert(cargoes.push(row)[cargoes.len() as int].key == k);
        } else {
            let i = choose|i: int|
                0 <= i < cargoes.len() && (#[trigger] cargoes[i]).key == k;
            assert(cargoes.push(row)[i].key == k);
        }
    }
    assert(a =~= b);
}

/// Replacing a row by one of the same key keeps the key set.
pub proof fn lemma_cargo_keys_update_same(cargoes: Seq<CargoDbView>, i: int, row: CargoDbView)
    requires
        0 <= i < cargoes.len(),
        cargoes[i].key == row.key,
    ensures
        cargo_key_set(cargoes.update(i, row)) == cargo_key_set(cargoes),
{
    let upd = cargoes.update(i, row);
    assert forall|k: Seq<char>|
        cargo_key_set(upd).contains(k) implies cargo_key_set(cargoes).contains(k) by {
        let j = choose|j: int| 0 <= j < upd.len() && (#[trigger] upd[j]).key == k;
        assert(cargoes[j].key == k);
    }
    assert forall|k: Seq<char>|
        cargo_key_set(cargoes).contains(k) implies cargo_key_set(upd).contains(k) by {
        let j = choose|j: int| 0 <= j < cargoes.len() && (#[trigger] cargoes[j]).key == k;
        assert(upd[j].key == k);
    }
    assert(cargo_key_set(upd) =~= cargo_key_set(cargoes));
}

/// Dropping the rows of one key removes exactly that key from the key set.
pub proof fn lemma_cargo_keys_filter(cargoes: Seq<CargoDbView>, key: Seq<char>)
    ensures
        cargo_key_set(cargoes.filter(cargo_other(key))) == cargo_key_set(cargoes).remove(key),
{
    broadcast use vstd::seq_lib::group_filter_ensures;

    let flt = cargoes.filter(cargo_other(key));
    lemma_filter_subset(cargoes, cargo_other(key));
    assert forall|k: Seq<char>|
        cargo_key_set(flt).contains(k) implies cargo_key_set(cargoes).remove(key).contains(
        k,
    ) by {
        let j = choose|j: int| 0 <= j < flt.len() && (#[trigger] flt[j]).key == k;
        assert(cargoes.contains(flt[j]));
        let m = choose|m: int| 0 <= m < cargoes.len() && cargoes[m] == flt[j];
        assert(cargoes[m].key == k);
        assert(cargo_other(key)(flt[j]));
    }
    assert forall|k: Seq<char>|
        cargo_key_set(cargoes).remove(key).contains(k) implies cargo_key_set(flt).contains(
        k,
    ) by {
        let j = choose|j: int| 0 <= j < cargoes.len() && (#[trigger] cargoes[j]).key == k;
        assert(cargo_other(key)(cargoes[j]));
        assert(flt.contains(cargoes[j]));
        let m = choose|m: int| 0 <= m < flt.len() && flt[m] == cargoes[j];
        assert(flt[m].key == k);
    }
    assert(cargo_key_set(flt) =~= cargo_key_set(cargoes).remove(key));
}

/// Appending a resource row adds exactly its key to the key set.
pub proof fn lemma_resource_keys_push(resources: Seq<ResourceDbView>, row: ResourceDbView)
    ensures
        resource_key_set(resources.push(row)) == resource_key_set(resources).insert(row.key),
{
    let a = resource_key_set(resources.push(row));
    let b = resource_key_set(resources).insert(row.key);
    assert forall|k: Seq<char>| a.contains(k) implies b.contains(k) by {
        let i = choose|i: int|
            0 <= i < resources.push(row).len() && (#[trigger] resources.push(row)[i]).key
                == k;
        if i < resources.len() {
            assert(resources[i].key == k);
        }
    }
    assert forall|k: Seq<char>| b.contains(k) implies a.contains(k) by {
        if k == row.key {
            assert(resources.push(row)[resources.len() as int].key == k);
        } else {
            let i = choose|i: int|
                0 <= i < resources.len() && (#[trigger] resources[i]).key == k;
            assert(resources.push(row)[i].key == k);
        }
    }
    assert(a =~= b);
}

/// Replacing a resource row by one of the same key keeps the key set.
pub proof fn lemma_resource_keys_update_same(
    resources: Seq<ResourceDbView>,
    i: int,
    row: ResourceDbView,
)
    requires
        0 <= i < resources.len(),
        resources[i].key == row.key,
    ensures
        resource_key_set(resources.update(i, row)) == resource_key_set(resources),
{
    let upd = resources.update(i, row);
    assert forall|k: Seq<char>|
        resource_key_set(upd).contains(k) implies resource_key_set(resources).contains(
        k,
    ) by {
        let j = choose|j: int| 0 <= j < upd.len() && (#[trigger] upd[j]).key == k;
        assert(resources[j].key == k);
    }
    assert forall|k: Seq<char>|
        resource_key_set(resources).contains(k) implies resource_key_set(upd).contains(
        k,
    ) by {
        let j = choose|j: int| 0 <= j < resources.len() && (#[trigger] resources[j]).key == k;
        assert(upd[j].key == k);
    }
    assert(resource_key_set(upd) =~= resource_key_set(resources));
}

/// Dropping the rows of one key removes exactly that key from the key set.
pub proof fn lemma_resource_keys_filter(resources: Seq<ResourceDbView>, key: Seq<char>)
    ensures
        resource_key_set(resources.filter(resource_other(key))) == resource_key_set(
            resources,
        ).remove(key),
{
    broadcast use vstd::seq_lib::group_filter_ensures;

    let flt = resources.filter(resource_other(key));
    lemma_filter_subset(resources, resource_other(key));
    assert forall|k: Seq<char>|
        resource_key_set(flt).contains(k) implies resource_key_set(resources).remove(
        key,
    ).contains(k) by {
        let j = choose|j: int| 0 <= j < flt.len() && (#[trigger] flt[j]).key == k;
        assert(resources.contains(flt[j]));
        let m = choose|m: int| 0 <= m < resources.len() && resources[m] == flt[j];
        assert(resources[m].key == k);
        assert(resource_other(key)(flt[j]));
    }
    assert forall|k: Seq<char>|
        resource_key_set(resources).remove(key).contains(k) implies resource_key_set(
        flt,
    ).contains(k) by {
        let j = choose|j: int| 0 <= j < resources.len() && (#[trigger] resources[j]).key == k;
        assert(resource_other(key)(resources[j]));
        assert(flt.contains(resources[j]));
        let m = choose|m: int| 0 <= m < flt.len() && flt[m] == resources[j];
        assert(flt[m].key == k);
    }
    assert(resource_key_set(flt) =~= resource_key_set(resources).remove(key));
}

/// A sequence whose elements keep their keys pointwise keeps uniqueness.
pub proof fn lemma_unique_by_pointwise<A>(a: Seq<A>, b: Seq<A>, key: spec_fn(A) -> Seq<char>)
    requires
        unique_by(a, key),
        a.len() == b.len(),
        forall|i: int| 0 <= i < a.len() ==> key(#[trigger] b[i]) == key(a[i]),
    ensures
        unique_by(b, key),
{
}

/// Taking one more element appends exactly that element.
pub proof fn lemma_take_succ<A>(s: Seq<A>, i: int)
    requires
        0 <= i < s.len(),
    ensures
        s.take(i + 1) == s.take(i).push(s[i]),
{
    assert(s.take(i + 1) =~= s.take(i).push(s[i]));
}

/// Every element of a filtered sequence is an element of the original.
pub proof fn lemma_filter_subset<A>(s: Seq<A>, pred: spec_fn(A) -> bool)
    ensures
        forall|i: int|
            0 <= i < s.filter(pred).len() ==> s.contains(#[trigger] s.filter(pred)[i]),
    decreases s.len(),
{
    reveal(Seq::filter);
    if s.len() > 0 {
        lemma_filter_subset(s.drop_last(), pred);
        assert forall|i: int|
            0 <= i < s.filter(pred).len() implies s.contains(#[trigger] s.filter(pred)[i]) by {
            let sub = s.drop_last().filter(pred);
            if i < sub.len() {
                assert(sub[i] == s.filter(pred)[i]);
                assert(s.drop_last().contains(sub[i]));
                let j = choose|j: int|
                    0 <= j < s.drop_last().len() && s.drop_last()[j] == sub[i];
                assert(s[j] == sub[i]);
            } else {
                assert(s.filter(pred)[i] == s.last());
                assert(s[s.len() - 1] == s.last());
            }
        }
    }
}

/// Filtering keeps a projection unique.
pub proof fn lemma_filter_unique_by<A>(s: Seq<A>, pred: spec_fn(A) -> bool, key: spec_fn(A) -> Seq<char>)
    requires
        unique_by(s, key),
    ensures
        unique_by(s.filter(pred), key),
    decreases s.len(),
{
    reveal(Seq::filter);
    if s.len() > 0 {
        assert(unique_by(s.drop_last(), key)) by {
            assert(forall|i: int|
                0 <= i < s.drop_last().len() ==> s.drop_last()[i] == s[i]);
        }
        lemma_filter_unique_by(s.drop_last(), pred, key);
        let sub = s.drop_last().filter(pred);
        if pred(s.last()) {
            lemma_filter_subset(s.drop_last(), pred);
            assert forall|i: int, j: int|
                0 <= i < j < s.filter(pred).len() implies key(s.filter(pred)[i]) != key(
                s.filter(pred)[j],
            ) by {
                if j < sub.len() {
                    assert(s.filter(pred)[i] == sub[i] && s.filter(pred)[j] == sub[j]);
                } else {
                    assert(s.filter(pred)[j] == s.last());
                    assert(s.filter(pred)[i] == sub[i]);
                    assert(s.drop_last().contains(sub[i]));
                    let m = choose|m: int|
                        0 <= m < s.drop_last().len() && s.drop_last()[m] == sub[i];
                    assert(s[m] == sub[i]);
                    assert(key(s[m]) != key(s[s.len() - 1]));
                }
            }
        }
    }
}

} // verus!

//! Reading virtual machines out of the store: one machine in detail, or the
//! machines of a namespace in summary.

use vstd::prelude::*;

use crate::err::{ApiError, ErrorKind};
use crate::models::{ProcessDb, ProcessDbView, VmDb, VmDbView};
use crate::process::count_running;
use crate::specs::SpecData;
use crate::store::{
    has_namespace, has_vm, lemma_filter_push, lemma_take_succ, spec_matches_vm, spec_refs_vm,
    Store,
};
use crate::vm_spec::VmSpec;

verus! {

/// A machine in summary: its row fields with its instance counts and its
/// resolved spec.
pub struct VmSummary {
    pub created_at: i64,
    pub namespace_name: String,
    pub instance_total: usize,
    pub instance_running: usize,
    pub spec: VmSpec,
}

/// A machine in detail: the summary fields with the instances themselves.
pub struct VmInspect {
    pub created_at: i64,
    pub namespace_name: String,
    pub instance_total: usize,
    pub instance_running: usize,
    pub spec: VmSpec,
    pub instances: Vec<ProcessDb>,
}

impl Store {
    /// Index of the machine spec revision with the identifier, owned by
    /// the key.
    fn find_vm_spec(&self, spec_key: u128, kind_key: &str) -> (r: Option<usize>)
        ensures
            r is Some ==> 0 <= r->0 < self@.specs.len() && spec_matches_vm(
                self@.specs[r->0 as int],
                VmDbView {
                    key: kind_key@,
                    created_at: 0,
                    name: Seq::<char>::empty(),
                    spec_key,
                    namespace_name: Seq::<char>::empty(),
                },
            ),
            r is None ==> forall|i: int|
                0 <= i < self@.specs.len() ==> !spec_matches_vm(
                    #[trigger] self@.specs[i],
                    VmDbView {
                        key: kind_key@,
                        created_at: 0,
                        name: Seq::<char>::empty(),
                        spec_key,
                        namespace_name: Seq::<char>::empty(),
                    },
                ),
    {
        let k = kind_key.to_owned();
        let kind = String::from_str("Vm");
        proof {
            reveal_strlit("Vm");
        }
        let mut i: usize = 0;
        while i < self.specs.len()
            invariant
                0 <= i <= self@.specs.len(),
                k@ == kind_key@,
                kind@ == "Vm"@,
                forall|j: int|
                    0 <= j < i ==> !spec_matches_vm(
                        #[trigger] self@.specs[j],
                        VmDbView {
                            key: kind_key@,
                            created_at: 0,
                            name: Seq::<char>::empty(),
                            spec_key,
                            namespace_name: Seq::<char>::empty(),
                        },
                    ),
            decreases self@.specs.len() - i,
        {
            let row = &self.specs[i];
            let is_vm = match &row.data {
                SpecData::Vm(_) => true,
                _ => false,
            };
            if row.key == spec_key && row.kind_key.eq(&k) && row.kind_name.eq(&kind)
                && is_vm {
                return Some(i);
            }
            i += 1;
        }
        None
    }

    /// Resolve a machine's current revision.  The well-formed store always
    /// holds it.
    fn resolve_vm_spec(&self, vm: &VmDb) -> (r: VmSpec)
        requires
            self@.inv(),
            exists|i: int| 0 <= i < self@.vms.len() && #[trigger] self@.vms[i] == vm@,
        ensures
            r@.key == vm@.spec_key,
            r@.vm_key == vm@.key,
    {
        proof {
            let i = choose|i: int| 0 <= i < self@.vms.len() && #[trigger] self@.vms[i] == vm@;
            assert(spec_refs_vm(self@.specs, self@.vms[i]));
        }
        let sj = match self.find_vm_spec(vm.spec_key, vm.key.as_str()) {
            Some(s) => s,
            None => {
                proof {
                    let i = choose|i: int|
                        0 <= i < self@.vms.len() && #[trigger] self@.vms[i] == vm@;
                    let w = choose|w: int|
                        0 <= w < self@.specs.len() && spec_matches_vm(
                            #[trigger] self@.specs[w],
                            self@.vms[i],
                        );
                    assert(false);
                }
                return unreached();
            },
        };
        match self.specs[sj].try_to_vm_spec() {
            Ok(s) => s,
            Err(_) => {
                proof {
                    assert(false);
                }
                unreached()
            },
        }
    }
}

/// Detailed information about a machine: its row fields, its resolved
/// current revision, and its process rows with the running count.  Fails
/// with `NotFound` when the machine does not exist.
pub fn inspect_vm_by_key(store: &Store, vm_key: &str) -> (r: Result<VmInspect, ApiError>)
    requires
        store@.inv(),
    ensures
        r is Ok <==> has_vm(store@.vms, vm_key@),
        r is Err ==> r->Err_0.kind == ErrorKind::NotFound,
        r is Ok ==> exists|i: int|
            0 <= i < store@.vms.len() && (#[trigger] store@.vms[i]).key == vm_key@
                && r->Ok_0.created_at == store@.vms[i].created_at
                && r->Ok_0.namespace_name@ == store@.vms[i].namespace_name
                && r->Ok_0.spec@.key == store@.vms[i].spec_key,
        r is Ok ==> r->Ok_0.spec@.vm_key == vm_key@,
        r is Ok ==> r->Ok_0.instances@.map_values(|p: ProcessDb| p@) == store@.processes.filter(
            |p: ProcessDbView| p.kind_key == vm_key@,
        ),
        r is Ok ==> r->Ok_0.instance_total == store@.processes.filter(
            |p: ProcessDbView| p.kind_key == vm_key@,
        ).len(),
        r is Ok ==> r->Ok_0.instance_running == store@.processes.filter(
            |p: ProcessDbView| p.kind_key == vm_key@,
        ).filter(|p: ProcessDbView| p.running).len(),
{
    let vm = match store.read_vm(vm_key) {
        Ok(v) => v,
        Err(e) => {
            return Err(e);
        },
    };
    let spec = store.resolve_vm_spec(&vm);
    let instances = store.read_processes_by_kind_key(vm_key);
    let instance_total = instances.len();
    let instance_running = count_running(&instances);
    proof {
        let flt = store@.processes.filter(|p: ProcessDbView| p.kind_key == vm_key@);
        assert(instances@.map_values(|p: ProcessDb| p@) == flt);
        assert(instances@.map_values(|p: ProcessDb| p@).filter(|p: ProcessDbView| p.running)
            == flt.filter(|p: ProcessDbView| p.running));
    }
    Ok(
        VmInspect {
            created_at: vm.created_at,
            namespace_name: vm.namespace_name,
            instance_total,
            instance_running,
            spec,
            instances,
        },
    )
}

/// The machines of a namespace, in table order, each in summary.  Fails
/// with `NotFound` when no namespace of the name exists.
pub fn list_vms_by_namespace(store: &Store, namespace: &str) -> (r: Result<
    Vec<VmSummary>,
    ApiError,
>)
    requires
        store@.inv(),
    ensures
        r is Ok <==> has_namespace(store@.namespaces, namespace@),
        r is Err ==> r->Err_0.kind == ErrorKind::NotFound,
        r is Ok ==> r->Ok_0@.len() == store@.vms.filter(
            |v: VmDbView| v.namespace_name == namespace@,
        ).len(),
        r is Ok ==> forall|m: int|
            0 <= m < r->Ok_0@.len() ==> {
                let row = store@.vms.filter(
                    |v: VmDbView| v.namespace_name == namespace@,
                )[m];
                (#[trigger] r->Ok_0@[m]).created_at == row.created_at
                    && r->Ok_0@[m].namespace_name@ == row.namespace_name
                    && r->Ok_0@[m].spec@.key == row.spec_key && r->Ok_0@[m].spec@.vm_key
                    == row.key && r->Ok_0@[m].instance_total == store@.processes.filter(
                    |p: ProcessDbView| p.kind_key == row.key,
                ).len() && r->Ok_0@[m].instance_running == store@.processes.filter(
                    |p: ProcessDbView| p.kind_key == row.key,
                ).filter(|p: ProcessDbView| p.running).len()
            },
{
    if !store.namespace_exists(namespace) {
        return Err(
            ApiError::new(ErrorKind::NotFound, String::from_str("namespace not found")),
        );
    }
    let ns = namespace.to_owned();
    let mut out: Vec<VmSummary> = Vec::new();
    let ghost pred = |v: VmDbView| v.namespace_name == namespace@;
    let mut i: usize = 0;
    while i < store.vms.len()
        invariant
            0 <= i <= store.vms.len(),
            ns@ == namespace@,
            store@.inv(),
            out@.len() == store@.vms.take(i as int).filter(pred).len(),
            pred == (|v: VmDbView| v.namespace_name == namespace@),
            forall|m: int|
                0 <= m < out@.len() ==> {
                    let row = store@.vms.take(i as int).filter(pred)[m];
                    (#[trigger] out@[m]).created_at == row.created_at
                        && out@[m].namespace_name@ == row.namespace_name && out@[m].spec@.key
                        == row.spec_key && out@[m].spec@.vm_key == row.key
                        && out@[m].instance_total == store@.processes.filter(
                        |p: ProcessDbView| p.kind_key == row.key,
                    ).len() && out@[m].instance_running == store@.processes.filter(
                        |p: ProcessDbView| p.kind_key == row.key,
                    ).filter(|p: ProcessDbView| p.running).len()
                },
        decreases store.vms.len() - i,
    {
        proof {
            lemma_take_succ(store@.vms, i as int);
            lemma_filter_push(store@.vms.take(i as int), pred, store@.vms[i as int]);
        }
        if store.vms[i].namespace_name.eq(&ns) {
            let vm = store.vms[i].clone();
            proof {
                assert(store@.vms[i as int] == vm@);
            }
            let spec = store.resolve_vm_spec(&vm);
            let instances = store.read_processes_by_kind_key(vm.key.as_str());
            let instance_total = instances.len();
            let instance_running = count_running(&instances);
            let ghost before = out@;
            out.push(
                VmSummary {
                    created_at: vm.created_at,
                    namespace_name: vm.namespace_name,
                    instance_total,
                    instance_running,
                    spec,
                },
            );
            proof {
                let flt = store@.vms.take(i + 1 as int).filter(pred);
                assert(flt == store@.vms.take(i as int).filter(pred).push(
                    store@.vms[i as int],
                ));
                assert(flt[flt.len() - 1] == store@.vms[i as int]);
                assert(forall|m: int|
                    0 <= m < before.len() ==> #[trigger] out@[m] == before[m]);
                assert(instances@.map_values(|p: ProcessDb| p@) == store@.processes.filter(
                    |p: ProcessDbView| p.kind_key == store@.vms[i as int].key,
                ));
            }
        }
        i += 1;
    }
    proof {
        assert(store@.vms.take(store.vms.len() as int) =~= store@.vms);
    }
    Ok(out)
}

} // verus!

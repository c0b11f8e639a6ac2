//! The machine rows of the store and the spec revision conversions.

use nanocl_core::err::ErrorKind;
use nanocl_core::models::{ProcessDb, ProcessKind};
use nanocl_core::vm::{inspect_vm_by_key, list_vms_by_namespace};
use nanocl_core::specs::{SpecData, SpecDb};
use nanocl_core::status::ObjPsStatusKind;
use nanocl_core::store::Store;
use nanocl_core::vm_spec::{VmDisk, VmSpecPartial};

fn vm_partial(name: &str) -> VmSpecPartial {
    VmSpecPartial {
        name: String::from(name),
        metadata: None,
        hostname: None,
        password: None,
        disk: VmDisk { image: String::from("base.img"), size: None },
        host_config: None,
        ssh_key: None,
        user: None,
        mac_address: None,
        labels: None,
    }
}

#[test]
fn vm_create_put_delete() {
    let mut store = Store::new();
    let row = store.create_vm("global", vm_partial("box"), "v0.14", 1).unwrap();
    assert_eq!(row.key.as_str(), "box.global.v");
    assert_eq!(store.specs.len(), 1);
    assert_eq!(store.specs[0].kind_name.as_str(), "Vm");
    assert_eq!(store.specs[0].key, row.spec_key);
    let status = store.read_status("box.global.v").unwrap();
    assert_eq!(status.actual, ObjPsStatusKind::Created);

    let put = store.put_vm_spec("box.global.v", vm_partial("box"), "v0.14").unwrap();
    assert_eq!(store.specs.len(), 2);
    assert_ne!(put.spec_key, row.spec_key);
    assert_eq!(put.spec_key, store.specs[1].key);

    store.delete_vm("box.global.v").unwrap();
    assert_eq!(store.vms.len(), 0);
    assert_eq!(store.specs.len(), 0);
    assert!(store.read_status("box.global.v").is_err());
    let err = store.delete_vm("box.global.v").err().unwrap();
    assert_eq!(err.kind, ErrorKind::NotFound);
}

#[test]
fn vm_and_cargo_keys_stay_apart() {
    let mut store = Store::new();
    let _ = store.create_vm("global", vm_partial("box"), "v0.14", 1).unwrap();
    let err = store.create_vm("global", vm_partial("box"), "v0.14", 2).err().unwrap();
    assert_eq!(err.kind, ErrorKind::AlreadyExists);
}

#[test]
fn vm_inspect_and_list() {
    let mut store = Store::new();
    store.register_namespace("global", 0).unwrap();
    store.register_namespace("lab", 0).unwrap();
    let _ = store.create_vm("global", vm_partial("box"), "v0.14", 1).unwrap();
    let _ = store.create_vm("lab", vm_partial("bench"), "v0.14", 2).unwrap();
    store
        .create_process(ProcessDb {
            key: String::from("q1"),
            created_at: 3,
            updated_at: 3,
            name: String::from("box.global.v.v"),
            kind: ProcessKind::Vm,
            node_key: String::from("node1"),
            kind_key: String::from("box.global.v"),
            running: false,
        })
        .unwrap();
    store.on_process_started("q1").unwrap();
    let inspect = inspect_vm_by_key(&store, "box.global.v").unwrap();
    assert_eq!(inspect.namespace_name.as_str(), "global");
    assert_eq!(inspect.instance_total, 1);
    assert_eq!(inspect.instance_running, 1);
    assert_eq!(inspect.spec.name.as_str(), "box");
    assert_eq!(inspect.instances[0].key.as_str(), "q1");
    let err = inspect_vm_by_key(&store, "ghost.global.v").err().unwrap();
    assert_eq!(err.kind, ErrorKind::NotFound);

    let listed = list_vms_by_namespace(&store, "global").unwrap();
    assert_eq!(listed.len(), 1);
    assert_eq!(listed[0].spec.vm_key.as_str(), "box.global.v");
    assert_eq!(listed[0].instance_running, 1);
    let lab = list_vms_by_namespace(&store, "lab").unwrap();
    assert_eq!(lab.len(), 1);
    assert_eq!(lab[0].instance_running, 0);
    // An unknown namespace is a missing object, not an empty listing.
    let err = list_vms_by_namespace(&store, "void").err().unwrap();
    assert_eq!(err.kind, ErrorKind::NotFound);
}

#[test]
fn revision_conversions() {
    let minted = SpecDb::try_from_vm_partial("box.global.v", "v0.14", vm_partial("box"));
    assert_eq!(minted.kind_name.as_str(), "Vm");
    assert_eq!(minted.kind_key.as_str(), "box.global.v");
    let resolved = minted.try_to_vm_spec().unwrap();
    assert_eq!(resolved.name.as_str(), "box");
    assert_eq!(resolved.vm_key.as_str(), "box.global.v");
    // An absent host configuration falls back to the defaults.
    assert_eq!(resolved.host_config.cpu, 0);
    assert_eq!(resolved.host_config.memory, 0);
    // A machine payload does not resolve as a cargo.
    let err = minted.try_to_cargo_spec().err().unwrap();
    assert_eq!(err.kind, ErrorKind::Validation);

    let json = SpecDb::try_from_resource("zone-a", "v0.14", String::from("{\"ttl\":60}"));
    let spec = json.into_resource_spec();
    assert_eq!(spec.resource_key.as_str(), "zone-a");
    assert_eq!(spec.data.as_str(), "{\"ttl\":60}");
}

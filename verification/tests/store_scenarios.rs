//! The store scenarios: namespaces, the cargo lifecycle, secrets, the spec
//! history, and the status machine.

use nanocl_core::cargo_spec::{
    cargo_needs_recreate, merge_update, partial_of_spec, CargoSpecPartial, CargoSpecUpdate,
};
use nanocl_core::container::ContainerSpec;
use nanocl_core::err::ErrorKind;
use nanocl_core::models::{ColumnType, NodeDb, ProcessDb, ProcessKind, SecretDb};
use nanocl_core::process::{
    del_process_by_pk, start_process_by_kind_key, stop_process_by_kind_key, RuntimeResult,
};
use nanocl_core::specs::SpecData;
use nanocl_core::status::ObjPsStatusKind;
use nanocl_core::store::Store;

fn container_with_image(image: &str) -> ContainerSpec {
    let mut c = ContainerSpec::new_empty();
    c.image = Some(String::from(image));
    c
}

fn cargo_partial(name: &str, image: &str) -> CargoSpecPartial {
    CargoSpecPartial {
        name: String::from(name),
        metadata: None,
        init_container: None,
        secrets: None,
        container: container_with_image(image),
        replication: None,
    }
}

fn process_row(key: &str, kind_key: &str, running: bool) -> ProcessDb {
    ProcessDb {
        key: String::from(key),
        created_at: 1,
        updated_at: 1,
        name: String::from(key),
        kind: ProcessKind::Cargo,
        node_key: String::from("node1"),
        kind_key: String::from(kind_key),
        running,
    }
}

#[test]
fn namespace_create_then_conflict() {
    let mut store = Store::new();
    assert!(store.register_namespace("global", 1).is_ok());
    assert_eq!(store.namespaces.len(), 1);
    assert_eq!(store.namespaces[0].name.as_str(), "global");
    let err = store.register_namespace("global", 2).err().unwrap();
    assert_eq!(err.kind, ErrorKind::AlreadyExists);
    assert_eq!(err.kind.status_code(), 409);
    assert_eq!(store.namespaces.len(), 1);
}

#[test]
fn cargo_create_and_start() {
    let mut store = Store::new();
    store.ensure_global_namespace(1);
    let row = store
        .create_cargo("global", cargo_partial("hello", "nginx:alpine"), "v0.14", 2)
        .unwrap();
    assert_eq!(row.key.as_str(), "hello.global");
    assert_eq!(store.specs.len(), 1);
    assert_eq!(store.specs[0].kind_key.as_str(), "hello.global");
    assert_eq!(store.specs[0].kind_name.as_str(), "Cargo");
    assert_eq!(store.specs[0].key, row.spec_key);
    let status = store.read_status("hello.global").unwrap();
    assert_eq!(status.actual, ObjPsStatusKind::Created);
    assert_eq!(store.processes.len(), 0);

    let ev = start_process_by_kind_key(&mut store, ProcessKind::Cargo, "hello.global")
        .unwrap()
        .unwrap();
    assert_eq!(ev.key.as_str(), "hello.global");
    let status = store.read_status("hello.global").unwrap();
    assert_eq!(status.wanted, ObjPsStatusKind::Running);
    assert_eq!(status.actual, ObjPsStatusKind::Starting);
    assert_eq!(status.prev_actual, ObjPsStatusKind::Created);

    store.create_process(process_row("c1", "hello.global", false)).unwrap();
    store.on_process_started("c1").unwrap();
    let status = store.read_status("hello.global").unwrap();
    assert_eq!(status.actual, ObjPsStatusKind::Running);
}

#[test]
fn start_on_starting_is_noop() {
    let mut store = Store::new();
    let _ = store
        .create_cargo("global", cargo_partial("web", "nginx"), "v0.14", 1)
        .unwrap();
    // The first start moves the observation to Starting and fires the event.
    let first = start_process_by_kind_key(&mut store, ProcessKind::Cargo, "web.global")
        .unwrap();
    assert!(first.is_some());
    let before = store.read_status("web.global").unwrap();
    assert_eq!(before.actual, ObjPsStatusKind::Starting);
    // A later start observes Starting and short-circuits: no event, no write.
    let mut i = 0;
    while i < 10 {
        let again = start_process_by_kind_key(&mut store, ProcessKind::Cargo, "web.global")
            .unwrap();
        assert!(again.is_none());
        i += 1;
    }
    let after = store.read_status("web.global").unwrap();
    assert_eq!(after.wanted, before.wanted);
    assert_eq!(after.actual, before.actual);
    assert_eq!(after.prev_wanted, before.prev_wanted);
    assert_eq!(after.prev_actual, before.prev_actual);
}

#[test]
fn start_on_running_is_noop() {
    let mut store = Store::new();
    let _ = store
        .create_cargo("global", cargo_partial("web", "nginx"), "v0.14", 1)
        .unwrap();
    let _ = start_process_by_kind_key(&mut store, ProcessKind::Cargo, "web.global").unwrap();
    store.create_process(process_row("c1", "web.global", false)).unwrap();
    store.on_process_started("c1").unwrap();
    let before = store.read_status("web.global").unwrap();
    assert_eq!(before.actual, ObjPsStatusKind::Running);
    let processes_before = store.processes.len();
    // Ten more start requests: every one a no-op.
    let mut i = 0;
    while i < 10 {
        let ev = start_process_by_kind_key(&mut store, ProcessKind::Cargo, "web.global")
            .unwrap();
        assert!(ev.is_none());
        i += 1;
    }
    let after = store.read_status("web.global").unwrap();
    assert_eq!(after.wanted, before.wanted);
    assert_eq!(after.actual, before.actual);
    assert_eq!(after.prev_wanted, before.prev_wanted);
    assert_eq!(after.prev_actual, before.prev_actual);
    assert_eq!(store.processes.len(), processes_before);
}

#[test]
fn cargo_patch_appends_revision() {
    let mut store = Store::new();
    let created = store
        .create_cargo("global", cargo_partial("hello", "nginx:alpine"), "v0.14", 1)
        .unwrap();
    let update = CargoSpecUpdate {
        name: None,
        metadata: None,
        init_container: None,
        secrets: None,
        container: Some(container_with_image("nginx:latest")),
        replication: None,
    };
    let patched = store.patch_cargo("hello.global", update, "v0.14").unwrap();
    assert_eq!(store.specs.len(), 2);
    assert_ne!(created.spec_key, store.specs[1].key);
    assert_eq!(patched.spec_key, store.specs[1].key);
    // The first revision is untouched: the history is append-only.
    assert_eq!(store.specs[0].key, created.spec_key);
    match &store.specs[1].data {
        SpecData::Cargo(p) => {
            assert_eq!(p.name.as_str(), "hello");
            assert_eq!(p.container.image.as_ref().unwrap().as_str(), "nginx:latest");
        }
        _ => panic!("expected a cargo payload"),
    }
    let history = store.read_specs_by_kind_key("hello.global");
    assert_eq!(history.len(), 2);
}

#[test]
fn patch_recreates_only_on_container_change() {
    let minted = nanocl_core::specs::SpecDb::try_from_cargo_partial(
        "hello.global",
        "v0.14",
        cargo_partial("hello", "nginx:alpine"),
    );
    let current = minted.try_to_cargo_spec().unwrap();
    // A metadata-only update leaves the containers alone.
    let meta_only = CargoSpecUpdate {
        name: None,
        metadata: Some(String::from("{\"team\":\"web\"}")),
        init_container: None,
        secrets: None,
        container: None,
        replication: None,
    };
    let merged = merge_update(minted.try_to_cargo_spec().unwrap(), meta_only);
    assert!(!cargo_needs_recreate(&current, &merged));
    // A new image touches the containers.
    let image_change = CargoSpecUpdate {
        name: None,
        metadata: None,
        init_container: None,
        secrets: None,
        container: Some(container_with_image("nginx:latest")),
        replication: None,
    };
    let merged = merge_update(minted.try_to_cargo_spec().unwrap(), image_change);
    assert!(cargo_needs_recreate(&current, &merged));
    // The partial of the unchanged revision is no recreate either.
    let same = partial_of_spec(minted.try_to_cargo_spec().unwrap());
    assert!(!cargo_needs_recreate(&current, &same));
}

#[test]
fn cargo_delete_cascades() {
    let mut store = Store::new();
    let _ = store
        .create_cargo("global", cargo_partial("hello", "nginx:alpine"), "v0.14", 1)
        .unwrap();
    let update = CargoSpecUpdate {
        name: None,
        metadata: None,
        init_container: None,
        secrets: None,
        container: Some(container_with_image("nginx:latest")),
        replication: None,
    };
    let _ = store.patch_cargo("hello.global", update, "v0.14").unwrap();
    store.create_process(process_row("c1", "hello.global", false)).unwrap();
    assert_eq!(store.specs.len(), 2);
    store.delete_cargo("hello.global").unwrap();
    assert_eq!(store.specs.len(), 0);
    assert_eq!(store.cargoes.len(), 0);
    assert_eq!(store.processes.len(), 0);
    assert!(store.read_status("hello.global").is_err());
    // Deleting again: the cargo is gone.
    let err = store.delete_cargo("hello.global").err().unwrap();
    assert_eq!(err.kind, ErrorKind::NotFound);
}

#[test]
fn removed_container_row_delete_is_idempotent() {
    let mut store = Store::new();
    let _ = store
        .create_cargo("global", cargo_partial("web", "nginx"), "v0.14", 1)
        .unwrap();
    store.create_process(process_row("c1", "web.global", false)).unwrap();
    // The runtime no longer knows the container: removal still succeeds.
    assert!(del_process_by_pk(&mut store, "c1", RuntimeResult::Missing).is_ok());
    assert_eq!(store.processes.len(), 0);
    // A second removal of the same key succeeds as well.
    assert!(del_process_by_pk(&mut store, "c1", RuntimeResult::Done).is_ok());
    // A runtime failure other than a missing container surfaces.
    let err = del_process_by_pk(
        &mut store,
        "c1",
        RuntimeResult::Failure(String::from("socket closed")),
    )
    .err()
    .unwrap();
    assert_eq!(err.kind, ErrorKind::Runtime);
}

#[test]
fn stop_plan_skips_stopped_containers() {
    let mut store = Store::new();
    let _ = store
        .create_cargo("global", cargo_partial("web", "nginx"), "v0.14", 1)
        .unwrap();
    store.create_process(process_row("c1", "web.global", true)).unwrap();
    store.create_process(process_row("c2", "web.global", false)).unwrap();
    store.create_process(process_row("c3", "web.global", true)).unwrap();
    let (ids, ev) = stop_process_by_kind_key(&store, ProcessKind::Cargo, "web.global");
    assert_eq!(ids.len(), 2);
    assert_eq!(ids[0].as_str(), "c1");
    assert_eq!(ids[1].as_str(), "c3");
    assert_eq!(ev.key.as_str(), "web.global");
}

#[test]
fn secret_immutable_rejects_patch() {
    let mut store = Store::new();
    store
        .create_secret(SecretDb {
            key: String::from("api-token"),
            created_at: 1,
            updated_at: 1,
            kind: String::from("generic"),
            immutable: true,
            data: String::from("{\"token\":\"SECRET-REDACTED\"}"),
            metadata: None,
        })
        .unwrap();
    let err = store
        .patch_secret("api-token", String::from("{\"token\":\"other\"}"), 2)
        .err()
        .unwrap();
    assert_eq!(err.kind, ErrorKind::Conflict);
    assert_eq!(err.kind.status_code(), 409);
    let kept = store.inspect_secret("api-token").unwrap();
    assert_eq!(kept.data.as_str(), "{\"token\":\"SECRET-REDACTED\"}");

    store
        .create_secret(SecretDb {
            key: String::from("mutable-one"),
            created_at: 1,
            updated_at: 1,
            kind: String::from("generic"),
            immutable: false,
            data: String::from("{}"),
            metadata: None,
        })
        .unwrap();
    let updated = store
        .patch_secret("mutable-one", String::from("{\"key\":\"value\"}"), 3)
        .unwrap();
    assert_eq!(updated.data.as_str(), "{\"key\":\"value\"}");
    assert_eq!(updated.updated_at, 3);
}

#[test]
fn node_column_whitelist() {
    let cols = NodeDb::get_columns();
    assert_eq!(cols.len(), 3);
    assert_eq!(cols[0].name.as_str(), "name");
    assert_eq!(cols[0].column_type, ColumnType::Text);
    assert_eq!(cols[1].name.as_str(), "ip_address");
    assert_eq!(cols[2].name.as_str(), "created_at");
    assert_eq!(cols[2].column_type, ColumnType::Timestamptz);
}

#[test]
fn node_registration_is_idempotent() {
    let mut store = Store::new();
    store.register_node("node1", "10.0.0.1", 1);
    store.register_node("node1", "10.0.0.2", 2);
    assert_eq!(store.nodes.len(), 1);
    assert_eq!(store.nodes[0].ip_address.as_str(), "10.0.0.1");
    let existing = store.create_node_if_not_exists(NodeDb {
        name: String::from("node1"),
        ip_address: String::from("10.0.0.9"),
        created_at: 9,
    });
    assert_eq!(existing.ip_address.as_str(), "10.0.0.1");
}

#[test]
fn resource_create_patch_delete() {
    let mut store = Store::new();
    let created = store
        .create_resource("dns-zone", "DnsRule", String::from("{\"a\":1}"), "v0.14", 1)
        .unwrap();
    assert_eq!(store.specs.len(), 1);
    assert_eq!(store.specs[0].kind_name.as_str(), "Resource");
    let patched = store
        .patch_resource("dns-zone", String::from("{\"a\":2}"), "v0.14")
        .unwrap();
    assert_eq!(store.specs.len(), 2);
    assert_ne!(created.spec_key, patched.spec_key);
    store.delete_resource("dns-zone").unwrap();
    assert_eq!(store.specs.len(), 0);
    assert_eq!(store.resources.len(), 0);
    let err = store.inspect_resource("dns-zone").err().unwrap();
    assert_eq!(err.kind, ErrorKind::NotFound);
}

#[test]
fn spec_version_lookup() {
    let mut store = Store::new();
    let _ = store
        .create_cargo("global", cargo_partial("hello", "nginx:alpine"), "v0.13", 1)
        .unwrap();
    let update = CargoSpecUpdate {
        name: None,
        metadata: None,
        init_container: None,
        secrets: None,
        container: None,
        replication: None,
    };
    let _ = store.patch_cargo("hello.global", update, "v0.14").unwrap();
    let found = store.get_spec_version("hello.global", "v0.13").unwrap();
    assert_eq!(found.version.as_str(), "v0.13");
    let err = store.get_spec_version("hello.global", "v0.12").err().unwrap();
    assert_eq!(err.kind, ErrorKind::NotFound);
}

#[test]
fn stopping_last_container_downgrades_status() {
    let mut store = Store::new();
    let _ = store
        .create_cargo("global", cargo_partial("web", "nginx"), "v0.14", 1)
        .unwrap();
    let _ = start_process_by_kind_key(&mut store, ProcessKind::Cargo, "web.global").unwrap();
    store.create_process(process_row("c1", "web.global", false)).unwrap();
    store.on_process_started("c1").unwrap();
    assert_eq!(store.read_status("web.global").unwrap().actual, ObjPsStatusKind::Running);
    store.on_process_stopped("c1").unwrap();
    let st = store.read_status("web.global").unwrap();
    assert_eq!(st.actual, ObjPsStatusKind::Stopped);
    assert_eq!(st.prev_actual, ObjPsStatusKind::Running);
}

//! The state pipeline: applying and reverting a deployment document, with
//! the exact progress stream.

use nanocl_core::cargo_spec::CargoSpecPartial;
use nanocl_core::events::{Event, EventObjectKind, NativeEventAction};
use nanocl_core::container::ContainerSpec;
use nanocl_core::state::{
    apply_state, revert_state, StateCargo, StateData, StateDeployment, StateResources,
    ResourcePartial, StateStream,
};
use nanocl_core::store::Store;

fn cargo_partial(name: &str, image: &str) -> CargoSpecPartial {
    let mut c = ContainerSpec::new_empty();
    c.image = Some(String::from(image));
    CargoSpecPartial {
        name: String::from(name),
        metadata: None,
        init_container: None,
        secrets: None,
        container: c,
        replication: None,
    }
}

fn two_cargo_deployment() -> StateData {
    StateData::Deployment(StateDeployment {
        namespace: Some(String::from("demo")),
        cargoes: Some(vec![cargo_partial("a", "nginx"), cargo_partial("b", "nginx")]),
        resources: None,
    })
}

fn event_texts(events: &Vec<Event>) -> Vec<String> {
    let mut out = Vec::new();
    for e in events {
        let kind = match e.kind {
            EventObjectKind::Cargo => "cargo",
            EventObjectKind::Vm => "vm",
            EventObjectKind::Job => "job",
            EventObjectKind::Resource => "resource",
        };
        let action = match e.action {
            NativeEventAction::Starting => "starting",
            NativeEventAction::Started => "started",
            NativeEventAction::Stopping => "stopping",
            NativeEventAction::Stopped => "stopped",
            NativeEventAction::Patched => "patched",
            NativeEventAction::Deleted => "deleted",
            NativeEventAction::Restart => "restart",
            NativeEventAction::Update => "update",
        };
        out.push(format!("{}/{}/{}", kind, action, e.key));
    }
    out
}

fn msg_texts(msgs: &Vec<StateStream>) -> Vec<String> {
    let mut out = Vec::new();
    for m in msgs {
        match m {
            StateStream::Msg(s) => out.push(format!("M:{}", s)),
            StateStream::Error(s) => out.push(format!("E:{}", s)),
        }
    }
    out
}

#[test]
fn apply_two_cargoes_stream() {
    let mut store = Store::new();
    let doc = two_cargo_deployment();
    let (msgs, events) = apply_state(&mut store, &doc, "v0.14", 1);
    let texts = msg_texts(&msgs);
    assert_eq!(
        texts,
        vec![
            String::from("M:Creating 2 cargoes in namespace: demo"),
            String::from("M:Creating Cargo a"),
            String::from("M:Created Cargo a"),
            String::from("M:Started Cargo a"),
            String::from("M:Creating Cargo b"),
            String::from("M:Created Cargo b"),
            String::from("M:Started Cargo b"),
        ]
    );
    assert_eq!(store.cargoes.len(), 2);
    assert_eq!(store.cargoes[0].key.as_str(), "a.demo");
    assert_eq!(store.cargoes[1].key.as_str(), "b.demo");
    assert_eq!(store.namespaces.len(), 1);
    assert_eq!(store.namespaces[0].name.as_str(), "demo");
    // Every applied cargo is patched and, being fresh, started.
    assert_eq!(
        event_texts(&events),
        vec![
            String::from("cargo/patched/a.demo"),
            String::from("cargo/starting/a.demo"),
            String::from("cargo/patched/b.demo"),
            String::from("cargo/starting/b.demo"),
        ]
    );
}

#[test]
fn apply_twice_same_live_names() {
    let mut store = Store::new();
    let doc = two_cargo_deployment();
    let _ = apply_state(&mut store, &doc, "v0.14", 1);
    let mut first: Vec<String> = Vec::new();
    for c in &store.cargoes {
        first.push(c.key.clone());
    }
    let specs_after_first = store.specs.len();
    let (_msgs, events) = apply_state(&mut store, &doc, "v0.14", 2);
    let mut second: Vec<String> = Vec::new();
    for c in &store.cargoes {
        second.push(c.key.clone());
    }
    // The same set of live objects, though each has one more revision.
    assert_eq!(first, second);
    assert_eq!(store.specs.len(), specs_after_first + 2);
    // Both objects are already on their way: the starts short-circuit.
    assert_eq!(
        event_texts(&events),
        vec![
            String::from("cargo/patched/a.demo"),
            String::from("cargo/patched/b.demo"),
        ]
    );
}

#[test]
fn revert_removes_what_apply_created() {
    let mut store = Store::new();
    let _ = store
        .create_cargo("demo", cargo_partial("keeper", "nginx"), "v0.14", 1)
        .unwrap();
    let doc = two_cargo_deployment();
    let _ = apply_state(&mut store, &doc, "v0.14", 2);
    assert_eq!(store.cargoes.len(), 3);
    let (msgs, events) = revert_state(&mut store, &doc);
    let texts = msg_texts(&msgs);
    assert_eq!(
        texts,
        vec![
            String::from("M:Deleting 2 cargoes in namespace demo"),
            String::from("M:Deleting Cargo a"),
            String::from("M:Deleted Cargo a"),
            String::from("M:Deleting Cargo b"),
            String::from("M:Deleted Cargo b"),
        ]
    );
    // One Deleted event per removed cargo.
    assert_eq!(
        event_texts(&events),
        vec![
            String::from("cargo/deleted/a.demo"),
            String::from("cargo/deleted/b.demo"),
        ]
    );
    // The object present beforehand remains.
    assert_eq!(store.cargoes.len(), 1);
    assert_eq!(store.cargoes[0].key.as_str(), "keeper.demo");
}

#[test]
fn revert_twice_skips_missing() {
    let mut store = Store::new();
    let doc = two_cargo_deployment();
    let _ = apply_state(&mut store, &doc, "v0.14", 1);
    let _ = revert_state(&mut store, &doc);
    let (msgs, events) = revert_state(&mut store, &doc);
    let texts = msg_texts(&msgs);
    assert_eq!(
        texts,
        vec![
            String::from("M:Deleting 2 cargoes in namespace demo"),
            String::from("M:Skipping Cargo a [NOT FOUND]"),
            String::from("M:Skipping Cargo b [NOT FOUND]"),
        ]
    );
    // Nothing was deleted, so nothing is announced.
    assert!(events.is_empty());
}

#[test]
fn apply_resources_stream() {
    let mut store = Store::new();
    let doc = StateData::Resource(StateResources {
        resources: vec![
            ResourcePartial {
                name: String::from("zone-a"),
                kind: String::from("DnsRule"),
                data: String::from("{}"),
            },
        ],
    });
    let (msgs, events) = apply_state(&mut store, &doc, "v0.14", 1);
    let texts = msg_texts(&msgs);
    assert_eq!(
        texts,
        vec![
            String::from("M:Creating 1 resources"),
            String::from("M:Creating Resource zone-a"),
            String::from("M:Created Resource zone-a"),
        ]
    );
    assert_eq!(event_texts(&events), vec![String::from("resource/patched/zone-a")]);
    assert_eq!(store.resources.len(), 1);
    let (msgs, events) = revert_state(&mut store, &doc);
    let texts = msg_texts(&msgs);
    assert_eq!(
        texts,
        vec![
            String::from("M:Deleting 1 resources"),
            String::from("M:Deleting Resource zone-a"),
            String::from("M:Deleted Resource zone-a"),
        ]
    );
    assert_eq!(event_texts(&events), vec![String::from("resource/deleted/zone-a")]);
    assert_eq!(store.resources.len(), 0);
}

#[test]
fn cargo_document_uses_default_namespace() {
    let mut store = Store::new();
    let doc = StateData::Cargo(StateCargo {
        namespace: None,
        cargoes: vec![cargo_partial("solo", "nginx")],
    });
    let (msgs, _events) = apply_state(&mut store, &doc, "v0.14", 1);
    let texts = msg_texts(&msgs);
    assert_eq!(texts[0].as_str(), "M:Creating 1 cargoes in namespace: global");
    assert_eq!(store.cargoes[0].key.as_str(), "solo.global");
}

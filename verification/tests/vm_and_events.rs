//! The machine spec derivations and the event bus.

use nanocl_core::events::{Event, EventBus, EventObjectKind, NativeEventAction};
use nanocl_core::vm_spec::{
    vm_container_name, vm_instance_spec, vm_merge_update, VmDisk, VmHostConfig, VmSpec,
    VmSpecUpdate,
};

fn sample_vm_spec() -> VmSpec {
    VmSpec {
        key: 7,
        vm_key: String::from("box.global.v"),
        version: String::from("v0.14"),
        created_at: 1,
        name: String::from("box"),
        metadata: None,
        hostname: Some(String::from("box-host")),
        password: Some(String::from("SECRET-REDACTED")),
        disk: VmDisk { image: String::from("box.img"), size: None },
        host_config: VmHostConfig {
            cpu: 2,
            memory: 1024,
            kvm: Some(true),
            net_iface: None,
            link_net_iface: None,
            runtime: None,
            runtime_network: None,
        },
        ssh_key: None,
        user: Some(String::from("admin")),
        mac_address: None,
        labels: None,
    }
}

#[test]
fn instance_spec_with_kvm() {
    let spec = sample_vm_spec();
    let c = vm_instance_spec(&spec, "global", "/var/lib/nanocl/vms/images/box.img", "/var/lib/nanocl", false);
    assert_eq!(c.image.as_ref().unwrap().as_str(), "ghcr.io/next-hat/nanocl-qemu:8.0.2.0");
    assert_eq!(c.tty, Some(true));
    assert_eq!(c.hostname.as_ref().unwrap().as_str(), "box-host");
    let cmd: Vec<&str> = c.cmd.as_ref().unwrap().iter().map(|s| s.as_str()).collect();
    assert_eq!(
        cmd,
        vec![
            "-hda",
            "/var/lib/nanocl/vms/images/box.img",
            "--nographic",
            "-accel",
            "kvm",
            "-smp",
            "2",
            "-m",
            "1024M",
        ]
    );
    let envs: Vec<&str> = c.env.as_ref().unwrap().iter().map(|s| s.as_str()).collect();
    assert_eq!(
        envs,
        vec![
            "DEFAULT_INTERFACE=eth0",
            "FROM_NETWORK=ens3",
            "DELETE_SSH_KEY=false",
            "USER=admin",
            "PASSWORD=SECRET-REDACTED",
        ]
    );
    let labels = c.labels.as_ref().unwrap();
    assert_eq!(labels[0].key.as_str(), "io.nanocl.v");
    assert_eq!(labels[0].value.as_str(), "box.global.v");
    assert_eq!(labels[1].key.as_str(), "io.nanocl.n");
    assert_eq!(labels[1].value.as_str(), "global");
    let hc = c.host_config.as_ref().unwrap();
    assert_eq!(hc.network_mode.as_ref().unwrap().as_str(), "global");
    assert_eq!(
        hc.binds.as_ref().unwrap()[0].as_str(),
        "/var/lib/nanocl/vms/images:/var/lib/nanocl/vms/images"
    );
    let devices = hc.devices.as_ref().unwrap();
    assert_eq!(devices.len(), 2);
    assert_eq!(devices[0].path_on_host.as_ref().unwrap().as_str(), "/dev/net/tun");
    assert_eq!(devices[1].path_on_host.as_ref().unwrap().as_str(), "/dev/kvm");
    assert_eq!(hc.cap_add.as_ref().unwrap()[0].as_str(), "NET_ADMIN");
}

#[test]
fn instance_spec_defaults() {
    let mut spec = sample_vm_spec();
    spec.host_config = VmHostConfig::new_default();
    spec.user = None;
    spec.password = None;
    let c = vm_instance_spec(&spec, "global", "/imgs/box.img", "/var/lib/nanocl", true);
    let cmd: Vec<&str> = c.cmd.as_ref().unwrap().iter().map(|s| s.as_str()).collect();
    // No acceleration, one processor, the default memory.
    assert_eq!(cmd, vec!["-hda", "/imgs/box.img", "--nographic", "-smp", "1", "-m", "512M"]);
    let envs: Vec<&str> = c.env.as_ref().unwrap().iter().map(|s| s.as_str()).collect();
    assert_eq!(
        envs,
        vec!["DEFAULT_INTERFACE=eth0", "FROM_NETWORK=ens3", "DELETE_SSH_KEY=true"]
    );
    let hc = c.host_config.as_ref().unwrap();
    assert_eq!(hc.devices.as_ref().unwrap().len(), 1);
}

#[test]
fn merge_keeps_absent_fields() {
    let old = sample_vm_spec();
    let update = VmSpecUpdate {
        name: None,
        metadata: None,
        hostname: Some(String::from("new-host")),
        password: None,
        host_config: None,
        ssh_key: None,
        user: None,
        labels: None,
    };
    let merged = vm_merge_update(old, update);
    assert_eq!(merged.name.as_str(), "box");
    assert_eq!(merged.hostname.as_ref().unwrap().as_str(), "new-host");
    assert_eq!(merged.password.as_ref().unwrap().as_str(), "SECRET-REDACTED");
    assert_eq!(merged.disk.image.as_str(), "box.img");
    assert_eq!(merged.host_config.as_ref().unwrap().memory, 1024);
}

#[test]
fn vm_container_naming() {
    assert_eq!(vm_container_name("box.global.v").as_str(), "box.global.v.v");
}

#[test]
fn event_framing() {
    let ev = Event {
        kind: EventObjectKind::Cargo,
        action: NativeEventAction::Started,
        key: String::from("hello.global"),
    };
    assert_eq!(
        nanocl_core::events::event_to_bytes(&ev).as_str(),
        "{\"Action\":\"Started\",\"Kind\":\"Cargo\",\"Key\":\"hello.global\"}\r\n"
    );
    assert_eq!(NativeEventAction::Restart.to_str(), "Restart");
    assert_eq!(EventObjectKind::Resource.to_str(), "Resource");
}

#[test]
fn bus_fanout_and_order() {
    let mut bus = EventBus::new();
    let fast = bus.subscribe(8);
    let slow = bus.subscribe(1);
    let ev1 = Event {
        kind: EventObjectKind::Cargo,
        action: NativeEventAction::Starting,
        key: String::from("hello.global"),
    };
    let ev2 = Event {
        kind: EventObjectKind::Cargo,
        action: NativeEventAction::Started,
        key: String::from("hello.global"),
    };
    bus.emit(&ev1);
    // The slow subscriber's queue is now full: the next emission drops it.
    bus.emit(&ev2);
    assert_eq!(bus.subscribers.len(), 1);
    assert_eq!(bus.subscribers[0].id, fast);
    let drained = bus.drain(fast);
    assert_eq!(drained.len(), 2);
    // Emission order is kept.
    assert_eq!(drained[0].action, NativeEventAction::Starting);
    assert_eq!(drained[1].action, NativeEventAction::Started);
    assert!(bus.drain(slow).is_empty());
    // After a drain the queue is empty.
    assert!(bus.drain(fast).is_empty());
}

//! Virtual-machine specifications: partial and update forms, the resolved
//! revision, and the derivation of the runtime container that hosts the
//! machine's emulator.

use vstd::prelude::*;

use crate::container::{
    clone_opt_string, labels_view, opt_labels_view, opt_str_view, ContainerSpec,
    ContainerSpecView, DeviceMapping, DeviceMappingView, HostConfig, HostConfigView, LabelPair,
    LabelPairView, clone_labels,
};
use crate::text::{bool_string, dec_string, spec_bool_text, spec_dec};

verus! {

/// The disk of a virtual machine.
#[derive(Debug)]
pub struct VmDisk {
    /// Name of the backing image.
    pub image: String,
    /// Requested size in gigabytes, when resized.
    pub size: Option<u64>,
}

/// View of a disk.
#[verifier::ext_equal]
pub ghost struct VmDiskView {
    pub image: Seq<char>,
    pub size: Option<u64>,
}

impl View for VmDisk {
    type V = VmDiskView;

    open spec fn view(&self) -> VmDiskView {
        VmDiskView { image: self.image@, size: self.size }
    }
}

impl Clone for VmDisk {
    /// The clone keeps the view.
    fn clone(&self) -> (r: Self)
        ensures
            r@ == self@,
    {
        VmDisk { image: self.image.clone(), size: self.size }
    }
}

/// Host-side settings of a virtual machine.
#[derive(Debug)]
pub struct VmHostConfig {
    /// Number of virtual processors; zero asks for the default of one.
    pub cpu: u64,
    /// Memory in mebibytes; zero asks for the default of 512.
    pub memory: u64,
    /// Whether hardware acceleration is wanted.
    pub kvm: Option<bool>,
    /// Interface inside the machine.
    pub net_iface: Option<String>,
    /// Interface of the hosting container.
    pub link_net_iface: Option<String>,
    /// Image of the emulator runtime, overriding the pinned default.
    pub runtime: Option<String>,
    /// Network of the hosting container, overriding the namespace.
    pub runtime_network: Option<String>,
}

/// View of the host-side settings.
#[verifier::ext_equal]
pub ghost struct VmHostConfigView {
    pub cpu: u64,
    pub memory: u64,
    pub kvm: Option<bool>,
    pub net_iface: Option<Seq<char>>,
    pub link_net_iface: Option<Seq<char>>,
    pub runtime: Option<Seq<char>>,
    pub runtime_network: Option<Seq<char>>,
}

impl View for VmHostConfig {
    type V = VmHostConfigView;

    open spec fn view(&self) -> VmHostConfigView {
        VmHostConfigView {
            cpu: self.cpu,
            memory: self.memory,
            kvm: self.kvm,
            net_iface: opt_str_view(self.net_iface),
            link_net_iface: opt_str_view(self.link_net_iface),
            runtime: opt_str_view(self.runtime),
            runtime_network: opt_str_view(self.runtime_network),
        }
    }
}

impl Clone for VmHostConfig {
    /// The clone keeps the view.
    fn clone(&self) -> (r: Self)
        ensures
            r@ == self@,
    {
        VmHostConfig {
            cpu: self.cpu,
            memory: self.memory,
            kvm: self.kvm,
            net_iface: clone_opt_string(&self.net_iface),
            link_net_iface: clone_opt_string(&self.link_net_iface),
            runtime: clone_opt_string(&self.runtime),
            runtime_network: clone_opt_string(&self.runtime_network),
        }
    }
}

/// The default host configuration view: nothing set, defaults apply.
pub open spec fn spec_default_vm_host_config() -> VmHostConfigView {
    VmHostConfigView {
        cpu: 0u64,
        memory: 0u64,
        kvm: None,
        net_iface: None,
        link_net_iface: None,
        runtime: None,
        runtime_network: None,
    }
}

impl VmHostConfig {
    /// The default host configuration: nothing set, defaults apply.
    pub fn new_default() -> (r: VmHostConfig)
        ensures
            r@ == spec_default_vm_host_config(),
    {
        VmHostConfig {
            cpu: 0,
            memory: 0,
            kvm: None,
            net_iface: None,
            link_net_iface: None,
            runtime: None,
            runtime_network: None,
        }
    }
}

/// View of an optional host configuration.
pub open spec fn opt_vm_host_config_view(v: Option<VmHostConfig>) -> Option<VmHostConfigView> {
    match v {
        Some(h) => Some(h@),
        None => None,
    }
}

/// A virtual-machine spec in its partial form, the payload used to create
/// one.
#[derive(Debug)]
pub struct VmSpecPartial {
    /// Name of the machine.
    pub name: String,
    /// User-defined metadata, carried as its serialised text.
    pub metadata: Option<String>,
    /// Hostname inside the machine.
    pub hostname: Option<String>,
    /// Password of the default user.
    pub password: Option<String>,
    /// The machine's disk.
    pub disk: VmDisk,
    /// Host-side settings.
    pub host_config: Option<VmHostConfig>,
    /// Public key installed for the default user.
    pub ssh_key: Option<String>,
    /// Name of the default user.
    pub user: Option<String>,
    /// Hardware address of the machine's interface.
    pub mac_address: Option<String>,
    /// Labels of the hosting container.
    pub labels: Option<Vec<LabelPair>>,
}

/// View of a partial machine spec.
#[verifier::ext_equal]
pub ghost struct VmSpecPartialView {
    pub name: Seq<char>,
    pub metadata: Option<Seq<char>>,
    pub hostname: Option<Seq<char>>,
    pub password: Option<Seq<char>>,
    pub disk: VmDiskView,
    pub host_config: Option<VmHostConfigView>,
    pub ssh_key: Option<Seq<char>>,
    pub user: Option<Seq<char>>,
    pub mac_address: Option<Seq<char>>,
    pub labels: Option<Seq<LabelPairView>>,
}

impl View for VmSpecPartial {
    type V = VmSpecPartialView;

    open spec fn view(&self) -> VmSpecPartialView {
        VmSpecPartialView {
            name: self.name@,
            metadata: opt_str_view(self.metadata),
            hostname: opt_str_view(self.hostname),
            password: opt_str_view(self.password),
            disk: self.disk@,
            host_config: opt_vm_host_config_view(self.host_config),
            ssh_key: opt_str_view(self.ssh_key),
            user: opt_str_view(self.user),
            mac_address: opt_str_view(self.mac_address),
            labels: opt_labels_view(self.labels),
        }
    }
}

impl Clone for VmSpecPartial {
    /// The clone keeps the view.
    fn clone(&self) -> (r: Self)
        ensures
            r@ == self@,
    {
        let host_config = match &self.host_config {
            Some(h) => Some(h.clone()),
            None => None,
        };
        let labels = match &self.labels {
            Some(ls) => Some(clone_labels(ls)),
            None => None,
        };
        let r = VmSpecPartial {
            name: self.name.clone(),
            metadata: clone_opt_string(&self.metadata),
            hostname: clone_opt_string(&self.hostname),
            password: clone_opt_string(&self.password),
            disk: self.disk.clone(),
            host_config,
            ssh_key: clone_opt_string(&self.ssh_key),
            user: clone_opt_string(&self.user),
            mac_address: clone_opt_string(&self.mac_address),
            labels,
        };
        assert(r@ =~~= self@);
        r
    }
}

/// Payload used to patch a virtual machine: every present field replaces the
/// old one, every absent field keeps it.
#[derive(Debug)]
pub struct VmSpecUpdate {
    pub name: Option<String>,
    pub metadata: Option<String>,
    pub hostname: Option<String>,
    pub password: Option<String>,
    pub host_config: Option<VmHostConfig>,
    pub ssh_key: Option<String>,
    pub user: Option<String>,
    pub labels: Option<Vec<LabelPair>>,
}

/// View of a machine spec update.
#[verifier::ext_equal]
pub ghost struct VmSpecUpdateView {
    pub name: Option<Seq<char>>,
    pub metadata: Option<Seq<char>>,
    pub hostname: Option<Seq<char>>,
    pub password: Option<Seq<char>>,
    pub host_config: Option<VmHostConfigView>,
    pub ssh_key: Option<Seq<char>>,
    pub user: Option<Seq<char>>,
    pub labels: Option<Seq<LabelPairView>>,
}

impl View for VmSpecUpdate {
    type V = VmSpecUpdateView;

    open spec fn view(&self) -> VmSpecUpdateView {
        VmSpecUpdateView {
            name: opt_str_view(self.name),
            metadata: opt_str_view(self.metadata),
            hostname: opt_str_view(self.hostname),
            password: opt_str_view(self.password),
            host_config: opt_vm_host_config_view(self.host_config),
            ssh_key: opt_str_view(self.ssh_key),
            user: opt_str_view(self.user),
            labels: opt_labels_view(self.labels),
        }
    }
}

/// A resolved virtual-machine spec revision.
#[derive(Debug)]
pub struct VmSpec {
    /// Unique identifier of the revision.
    pub key: u128,
    /// Key of the machine the revision belongs to.
    pub vm_key: String,
    /// Version the revision was written under.
    pub version: String,
    /// Creation instant of the revision, in milliseconds since the epoch.
    pub created_at: i64,
    pub name: String,
    pub metadata: Option<String>,
    pub hostname: Option<String>,
    pub password: Option<String>,
    pub disk: VmDisk,
    pub host_config: VmHostConfig,
    pub ssh_key: Option<String>,
    pub user: Option<String>,
    pub mac_address: Option<String>,
    pub labels: Option<Vec<LabelPair>>,
}

/// View of a resolved machine spec revision.
#[verifier::ext_equal]
pub ghost struct VmSpecView {
    pub key: u128,
    pub vm_key: Seq<char>,
    pub version: Seq<char>,
    pub created_at: i64,
    pub name: Seq<char>,
    pub metadata: Option<Seq<char>>,
    pub hostname: Option<Seq<char>>,
    pub password: Option<Seq<char>>,
    pub disk: VmDiskView,
    pub host_config: VmHostConfigView,
    pub ssh_key: Option<Seq<char>>,
    pub user: Option<Seq<char>>,
    pub mac_address: Option<Seq<char>>,
    pub labels: Option<Seq<LabelPairView>>,
}

impl View for VmSpec {
    type V = VmSpecView;

    open spec fn view(&self) -> VmSpecView {
        VmSpecView {
            key: self.key,
            vm_key: self.vm_key@,
            version: self.version@,
            created_at: self.created_at,
            name: self.name@,
            metadata: opt_str_view(self.metadata),
            hostname: opt_str_view(self.hostname),
            password: opt_str_view(self.password),
            disk: self.disk@,
            host_config: self.host_config@,
            ssh_key: opt_str_view(self.ssh_key),
            user: opt_str_view(self.user),
            mac_address: opt_str_view(self.mac_address),
            labels: opt_labels_view(self.labels),
        }
    }
}

/// Merge an update over a resolved revision, yielding the partial form of
/// the next revision.  The disk and the hardware address always carry over
/// from the old revision; every other present field of the update replaces
/// the old value, every absent field keeps it.
pub fn vm_merge_update(old: VmSpec, update: VmSpecUpdate) -> (r: VmSpecPartial)
    ensures
        r@.name == if update@.name is Some {
            update@.name->0
        } else {
            old@.name
        },
        r@.metadata == if update@.metadata is Some {
            update@.metadata
        } else {
            old@.metadata
        },
        r@.hostname == if update@.hostname is Some {
            update@.hostname
        } else {
            old@.hostname
        },
        r@.password == if update@.password is Some {
            update@.password
        } else {
            old@.password
        },
        r@.disk == old@.disk,
        r@.host_config == Some(
            if update@.host_config is Some {
                update@.host_config->0
            } else {
                old@.host_config
            },
        ),
        r@.ssh_key == if update@.ssh_key is Some {
            update@.ssh_key
        } else {
            old@.ssh_key
        },
        r@.user == if update@.user is Some {
            update@.user
        } else {
            old@.user
        },
        r@.mac_address == old@.mac_address,
        r@.labels == if update@.labels is Some {
            update@.labels
        } else {
            old@.labels
        },
{
    VmSpecPartial {
        name: match update.name {
            Some(n) => n,
            None => old.name,
        },
        metadata: match update.metadata {
            Some(m) => Some(m),
            None => old.metadata,
        },
        hostname: match update.hostname {
            Some(h) => Some(h),
            None => old.hostname,
        },
        password: match update.password {
            Some(p) => Some(p),
            None => old.password,
        },
        disk: old.disk,
        host_config: Some(
            match update.host_config {
                Some(h) => h,
                None => old.host_config,
            },
        ),
        ssh_key: match update.ssh_key {
            Some(k) => Some(k),
            None => old.ssh_key,
        },
        user: match update.user {
            Some(u) => Some(u),
            None => old.user,
        },
        mac_address: old.mac_address,
        labels: match update.labels {
            Some(l) => Some(l),
            None => old.labels,
        },
    }
}

/// The name of the container hosting a machine: the machine's key with the
/// machine mark appended.
pub fn vm_container_name(vm_key: &str) -> (r: String)
    ensures
        r@ == vm_key@ + ".v"@,
{
    let mut s = vm_key.to_owned();
    s.append(".v");
    s
}

/// The emulator arguments of a machine: the disk, the console, acceleration
/// when wanted, then processors and memory with their defaults.
pub open spec fn spec_vm_args(
    image_path: Seq<char>,
    kvm: bool,
    cpu: u64,
    memory: u64,
) -> Seq<Seq<char>> {
    let base = seq!["-hda"@, image_path, "--nographic"@];
    let accel = if kvm {
        base + seq!["-accel"@, "kvm"@]
    } else {
        base
    };
    let cpu_text = if cpu > 0 {
        spec_dec(cpu as nat)
    } else {
        "1"@
    };
    let mem_text = if memory > 0 {
        spec_dec(memory as nat) + "M"@
    } else {
        "512M"@
    };
    accel + seq!["-smp"@, cpu_text, "-m"@, mem_text]
}

/// The environment of a machine's container: the interfaces with their
/// defaults, whether the key pair is discarded, and the optional user,
/// password and key.
pub open spec fn spec_vm_envs(
    host_config: VmHostConfigView,
    user: Option<Seq<char>>,
    password: Option<Seq<char>>,
    ssh_key: Option<Seq<char>>,
    disable_keygen: bool,
) -> Seq<Seq<char>> {
    let link_iface = match host_config.link_net_iface {
        Some(i) => i,
        None => "eth0"@,
    };
    let net_iface = match host_config.net_iface {
        Some(i) => i,
        None => "ens3"@,
    };
    let base = seq![
        "DEFAULT_INTERFACE="@ + link_iface,
        "FROM_NETWORK="@ + net_iface,
        "DELETE_SSH_KEY="@ + spec_bool_text(disable_keygen),
    ];
    let with_user = match user {
        Some(u) => base.push("USER="@ + u),
        None => base,
    };
    let with_password = match password {
        Some(p) => with_user.push("PASSWORD="@ + p),
        None => with_user,
    };
    match ssh_key {
        Some(k) => with_password.push("SSH_KEY="@ + k),
        None => with_password,
    }
}

/// The device shared with a machine's container, granting all permissions.
pub open spec fn spec_vm_device(path: Seq<char>) -> DeviceMappingView {
    DeviceMappingView {
        path_on_host: Some(path),
        path_in_container: Some(path),
        cgroup_permissions: Some("rwm"@),
    }
}

/// Build the device entry for a path.
fn vm_device(path: &str) -> (r: DeviceMapping)
    ensures
        r@ == spec_vm_device(path@),
{
    DeviceMapping {
        path_on_host: Some(path.to_owned()),
        path_in_container: Some(path.to_owned()),
        cgroup_permissions: Some(String::from_str("rwm")),
    }
}

/// The pinned emulator runtime image used when the spec names none.
pub open spec fn spec_default_vm_runtime() -> Seq<char> {
    "ghcr.io/next-hat/nanocl-qemu:8.0.2.0"@
}

/// Derive the configuration of the container hosting a machine.
///
/// The machine's disk image is handed to the emulator by path and the image
/// directory is mounted into the container; the network device is always
/// shared, the acceleration device only when the spec asks for it; the
/// container joins the namespace's network unless the spec names another;
/// and the spec's labels of ownership are the machine's key and namespace.
pub fn vm_instance_spec(
    spec: &VmSpec,
    namespace: &str,
    image_path: &str,
    state_dir: &str,
    disable_keygen: bool,
) -> (r: ContainerSpec)
    ensures
        r@.image == Some(
            match spec@.host_config.runtime {
                Some(rt) => rt,
                None => spec_default_vm_runtime(),
            },
        ),
        r@.tty == Some(true),
        r@.hostname == spec@.hostname,
        r@.env == Some(
            spec_vm_envs(
                spec@.host_config,
                spec@.user,
                spec@.password,
                spec@.ssh_key,
                disable_keygen,
            ),
        ),
        r@.labels == Some(
            seq![
                LabelPairView { key: "io.nanocl.v"@, value: spec@.vm_key },
                LabelPairView { key: "io.nanocl.n"@, value: namespace@ },
            ],
        ),
        r@.cmd == Some(
            spec_vm_args(
                image_path@,
                match spec@.host_config.kvm {
                    Some(k) => k,
                    None => false,
                },
                spec@.host_config.cpu,
                spec@.host_config.memory,
            ),
        ),
        r@.attach_stderr == Some(true),
        r@.attach_stdin == Some(true),
        r@.attach_stdout == Some(true),
        r@.open_stdin == Some(true),
        r@.host_config is Some,
        r@.host_config->0.network_mode == Some(
            match spec@.host_config.runtime_network {
                Some(n) => n,
                None => namespace@,
            },
        ),
        r@.host_config->0.binds == Some(
            seq![state_dir@ + "/vms/images"@ + ":"@ + state_dir@ + "/vms/images"@],
        ),
        r@.host_config->0.devices == Some(
            if spec@.host_config.kvm == Some(true) {
                seq![spec_vm_device("/dev/net/tun"@), spec_vm_device("/dev/kvm"@)]
            } else {
                seq![spec_vm_device("/dev/net/tun"@)]
            },
        ),
        r@.host_config->0.cap_add == Some(seq!["NET_ADMIN"@]),
{
    let kvm = match spec.host_config.kvm {
        Some(k) => k,
        None => false,
    };
    // Labels of ownership.
    let mut labels: Vec<LabelPair> = Vec::new();
    labels.push(
        LabelPair { key: String::from_str("io.nanocl.v"), value: spec.vm_key.clone() },
    );
    labels.push(
        LabelPair { key: String::from_str("io.nanocl.n"), value: namespace.to_owned() },
    );
    // Emulator arguments.
    let mut args: Vec<String> = Vec::new();
    args.push(String::from_str("-hda"));
    args.push(image_path.to_owned());
    args.push(String::from_str("--nographic"));
    if kvm {
        args.push(String::from_str("-accel"));
        args.push(String::from_str("kvm"));
    }
    args.push(String::from_str("-smp"));
    if spec.host_config.cpu > 0 {
        args.push(dec_string(spec.host_config.cpu));
    } else {
        args.push(String::from_str("1"));
    }
    args.push(String::from_str("-m"));
    if spec.host_config.memory > 0 {
        let mut m = dec_string(spec.host_config.memory);
        m.append("M");
        args.push(m);
    } else {
        args.push(String::from_str("512M"));
    }
    // Devices shared with the container.
    let mut devices: Vec<DeviceMapping> = Vec::new();
    devices.push(vm_device("/dev/net/tun"));
    if kvm {
        devices.push(vm_device("/dev/kvm"));
    }
    // Environment.
    let mut envs: Vec<String> = Vec::new();
    let mut default_iface = String::from_str("DEFAULT_INTERFACE=");
    match &spec.host_config.link_net_iface {
        Some(i) => default_iface.append(i.as_str()),
        None => default_iface.append("eth0"),
    }
    envs.push(default_iface);
    let mut from_network = String::from_str("FROM_NETWORK=");
    match &spec.host_config.net_iface {
        Some(i) => from_network.append(i.as_str()),
        None => from_network.append("ens3"),
    }
    envs.push(from_network);
    let mut delete_key = String::from_str("DELETE_SSH_KEY=");
    let keygen_text = bool_string(disable_keygen);
    delete_key.append(keygen_text.as_str());
    envs.push(delete_key);
    if let Some(user) = &spec.user {
        let mut e = String::from_str("USER=");
        e.append(user.as_str());
        envs.push(e);
    }
    if let Some(password) = &spec.password {
        let mut e = String::from_str("PASSWORD=");
        e.append(password.as_str());
        envs.push(e);
    }
    if let Some(ssh_key) = &spec.ssh_key {
        let mut e = String::from_str("SSH_KEY=");
        e.append(ssh_key.as_str());
        envs.push(e);
    }
    // Image of the emulator runtime.
    let image = match &spec.host_config.runtime {
        Some(rt) => rt.clone(),
        None => String::from_str("ghcr.io/next-hat/nanocl-qemu:8.0.2.0"),
    };
    // Mount of the image directory.
    let mut images_dir = state_dir.to_owned();
    images_dir.append("/vms/images");
    let mut bind = images_dir.clone();
    bind.append(":");
    bind.append(images_dir.as_str());
    let mut binds: Vec<String> = Vec::new();
    binds.push(bind);
    // Network of the hosting container.
    let network_mode = match &spec.host_config.runtime_network {
        Some(n) => n.clone(),
        None => namespace.to_owned(),
    };
    let mut cap_add: Vec<String> = Vec::new();
    cap_add.push(String::from_str("NET_ADMIN"));
    let host_config = HostConfig {
        network_mode: Some(network_mode),
        binds: Some(binds),
        devices: Some(devices),
        cap_add: Some(cap_add),
    };
    let r = ContainerSpec {
        image: Some(image),
        tty: Some(true),
        hostname: clone_opt_string(&spec.hostname),
        env: Some(envs),
        labels: Some(labels),
        cmd: Some(args),
        attach_stderr: Some(true),
        attach_stdin: Some(true),
        attach_stdout: Some(true),
        open_stdin: Some(true),
        host_config: Some(host_config),
    };
    proof {
        reveal_strlit("DEFAULT_INTERFACE=");
        reveal_strlit("FROM_NETWORK=");
        reveal_strlit("DELETE_SSH_KEY=");
        reveal_strlit("USER=");
        reveal_strlit("PASSWORD=");
        reveal_strlit("SSH_KEY=");
        assert(r@.env->0 =~= spec_vm_envs(
            spec@.host_config,
            spec@.user,
            spec@.password,
            spec@.ssh_key,
            disable_keygen,
        ));
        assert(r@.cmd->0 =~= spec_vm_args(
            image_path@,
            kvm,
            spec@.host_config.cpu,
            spec@.host_config.memory,
        ));
        assert(r@.labels->0 =~= seq![
            LabelPairView { key: "io.nanocl.v"@, value: spec@.vm_key },
            LabelPairView { key: "io.nanocl.n"@, value: namespace@ },
        ]);
        assert(r@.host_config->0.devices->0 =~= (if spec@.host_config.kvm == Some(true) {
            seq![spec_vm_device("/dev/net/tun"@), spec_vm_device("/dev/kvm"@)]
        } else {
            seq![spec_vm_device("/dev/net/tun"@)]
        }));
        assert(r@.host_config->0.binds->0 =~~= seq![
            state_dir@ + "/vms/images"@ + ":"@ + state_dir@ + "/vms/images"@,
        ]);
        assert(r@.host_config->0.cap_add->0 =~= seq!["NET_ADMIN"@]);
    }
    r
}

} // verus!

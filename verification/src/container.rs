//! Model of a runtime container configuration: the fields of the container
//! create request that the orchestrator reads or writes.  Payloads the
//! orchestrator only passes through ride as plain text.
//!
//! Each executable type has a ghost view over sequences of characters, and
//! every contract of the crate speaks of those views.

use vstd::prelude::*;

verus! {

/// View of a vector of strings.
pub open spec fn strs_view(v: Vec<String>) -> Seq<Seq<char>> {
    v@.map_values(|s: String| s@)
}

/// View of an optional vector of strings.
pub open spec fn opt_strs_view(v: Option<Vec<String>>) -> Option<Seq<Seq<char>>> {
    match v {
        Some(x) => Some(strs_view(x)),
        None => None,
    }
}

/// View of an optional string.
pub open spec fn opt_str_view(v: Option<String>) -> Option<Seq<char>> {
    match v {
        Some(s) => Some(s@),
        None => None,
    }
}

/// One label on a container, a key with its value.
#[derive(Debug)]
pub struct LabelPair {
    pub key: String,
    pub value: String,
}

/// View of a label.
#[verifier::ext_equal]
pub ghost struct LabelPairView {
    pub key: Seq<char>,
    pub value: Seq<char>,
}

impl View for LabelPair {
    type V = LabelPairView;

    open spec fn view(&self) -> LabelPairView {
        LabelPairView { key: self.key@, value: self.value@ }
    }
}

/// View of a vector of labels.
pub open spec fn labels_view(v: Vec<LabelPair>) -> Seq<LabelPairView> {
    v@.map_values(|p: LabelPair| p@)
}

/// View of an optional vector of labels.
pub open spec fn opt_labels_view(v: Option<Vec<LabelPair>>) -> Option<Seq<LabelPairView>> {
    match v {
        Some(x) => Some(labels_view(x)),
        None => None,
    }
}

/// A device mapped into a container.
#[derive(Debug)]
pub struct DeviceMapping {
    pub path_on_host: Option<String>,
    pub path_in_container: Option<String>,
    pub cgroup_permissions: Option<String>,
}

/// View of a device mapping.
#[verifier::ext_equal]
pub ghost struct DeviceMappingView {
    pub path_on_host: Option<Seq<char>>,
    pub path_in_container: Option<Seq<char>>,
    pub cgroup_permissions: Option<Seq<char>>,
}

impl View for DeviceMapping {
    type V = DeviceMappingView;

    open spec fn view(&self) -> DeviceMappingView {
        DeviceMappingView {
            path_on_host: opt_str_view(self.path_on_host),
            path_in_container: opt_str_view(self.path_in_container),
            cgroup_permissions: opt_str_view(self.cgroup_permissions),
        }
    }
}

/// View of an optional vector of device mappings.
pub open spec fn opt_devices_view(v: Option<Vec<DeviceMapping>>) -> Option<
    Seq<DeviceMappingView>,
> {
    match v {
        Some(x) => Some(x@.map_values(|d: DeviceMapping| d@)),
        None => None,
    }
}

/// Host-side settings of a container.
#[derive(Debug)]
pub struct HostConfig {
    pub network_mode: Option<String>,
    pub binds: Option<Vec<String>>,
    pub devices: Option<Vec<DeviceMapping>>,
    pub cap_add: Option<Vec<String>>,
}

/// View of the host-side settings.
#[verifier::ext_equal]
pub ghost struct HostConfigView {
    pub network_mode: Option<Seq<char>>,
    pub binds: Option<Seq<Seq<char>>>,
    pub devices: Option<Seq<DeviceMappingView>>,
    pub cap_add: Option<Seq<Seq<char>>>,
}

impl View for HostConfig {
    type V = HostConfigView;

    open spec fn view(&self) -> HostConfigView {
        HostConfigView {
            network_mode: opt_str_view(self.network_mode),
            binds: opt_strs_view(self.binds),
            devices: opt_devices_view(self.devices),
            cap_add: opt_strs_view(self.cap_add),
        }
    }
}

/// View of an optional host configuration.
pub open spec fn opt_host_config_view(v: Option<HostConfig>) -> Option<HostConfigView> {
    match v {
        Some(h) => Some(h@),
        None => None,
    }
}

/// A container configuration.
#[derive(Debug)]
pub struct ContainerSpec {
    pub image: Option<String>,
    pub tty: Option<bool>,
    pub hostname: Option<String>,
    pub env: Option<Vec<String>>,
    pub labels: Option<Vec<LabelPair>>,
    pub cmd: Option<Vec<String>>,
    pub attach_stderr: Option<bool>,
    pub attach_stdin: Option<bool>,
    pub attach_stdout: Option<bool>,
    pub open_stdin: Option<bool>,
    pub host_config: Option<HostConfig>,
}

/// View of a container configuration.
#[verifier::ext_equal]
pub ghost struct ContainerSpecView {
    pub image: Option<Seq<char>>,
    pub tty: Option<bool>,
    pub hostname: Option<Seq<char>>,
    pub env: Option<Seq<Seq<char>>>,
    pub labels: Option<Seq<LabelPairView>>,
    pub cmd: Option<Seq<Seq<char>>>,
    pub attach_stderr: Option<bool>,
    pub attach_stdin: Option<bool>,
    pub attach_stdout: Option<bool>,
    pub open_stdin: Option<bool>,
    pub host_config: Option<HostConfigView>,
}

impl View for ContainerSpec {
    type V = ContainerSpecView;

    open spec fn view(&self) -> ContainerSpecView {
        ContainerSpecView {
            image: opt_str_view(self.image),
            tty: self.tty,
            hostname: opt_str_view(self.hostname),
            env: opt_strs_view(self.env),
            labels: opt_labels_view(self.labels),
            cmd: opt_strs_view(self.cmd),
            attach_stderr: self.attach_stderr,
            attach_stdin: self.attach_stdin,
            attach_stdout: self.attach_stdout,
            open_stdin: self.open_stdin,
            host_config: opt_host_config_view(self.host_config),
        }
    }
}

impl ContainerSpec {
    /// A container configuration with nothing set.
    pub fn new_empty() -> (r: ContainerSpec)
        ensures
            r@ == (ContainerSpecView {
                image: None,
                tty: None,
                hostname: None,
                env: None,
                labels: None,
                cmd: None,
                attach_stderr: None,
                attach_stdin: None,
                attach_stdout: None,
                open_stdin: None,
                host_config: None,
            }),
    {
        ContainerSpec {
            image: None,
            tty: None,
            hostname: None,
            env: None,
            labels: None,
            cmd: None,
            attach_stderr: None,
            attach_stdin: None,
            attach_stdout: None,
            open_stdin: None,
            host_config: None,
        }
    }
}

/// Clone a vector of strings, keeping the contents.
pub fn clone_string_vec(v: &Vec<String>) -> (r: Vec<String>)
    ensures
        r@ == v@,
{
    let r = v.clone();
    assert(r@ =~= v@);
    r
}

/// Clone an optional vector of strings, keeping the contents.
pub fn clone_opt_string_vec(v: &Option<Vec<String>>) -> (r: Option<Vec<String>>)
    ensures
        opt_strs_view(r) == opt_strs_view(*v),
        r is Some <==> v is Some,
{
    match v {
        Some(xs) => Some(clone_string_vec(xs)),
        None => None,
    }
}

/// Clone an optional string, keeping the contents.
pub fn clone_opt_string(v: &Option<String>) -> (r: Option<String>)
    ensures
        r == v,
{
    match v {
        Some(s) => Some(s.clone()),
        None => None,
    }
}

impl Clone for LabelPair {
    /// The clone keeps both fields.
    fn clone(&self) -> (r: Self)
        ensures
            r == *self,
    {
        LabelPair { key: self.key.clone(), value: self.value.clone() }
    }
}

/// Clone a vector of labels, keeping the contents.
pub fn clone_labels(v: &Vec<LabelPair>) -> (r: Vec<LabelPair>)
    ensures
        r@ == v@,
{
    let r = v.clone();
    assert(r@ =~= v@);
    r
}

impl Clone for DeviceMapping {
    /// The clone keeps every field.
    fn clone(&self) -> (r: Self)
        ensures
            r == *self,
    {
        DeviceMapping {
            path_on_host: clone_opt_string(&self.path_on_host),
            path_in_container: clone_opt_string(&self.path_in_container),
            cgroup_permissions: clone_opt_string(&self.cgroup_permissions),
        }
    }
}

impl Clone for HostConfig {
    /// The clone keeps the view.
    fn clone(&self) -> (r: Self)
        ensures
            r@ == self@,
    {
        let devices = match &self.devices {
            Some(ds) => {
                let d = ds.clone();
                assert(d@ =~= ds@);
                Some(d)
            },
            None => None,
        };
        let r = HostConfig {
            network_mode: clone_opt_string(&self.network_mode),
            binds: clone_opt_string_vec(&self.binds),
            devices,
            cap_add: clone_opt_string_vec(&self.cap_add),
        };
        assert(r@ =~~= self@);
        r
    }
}

impl Clone for ContainerSpec {
    /// The clone keeps the view.
    fn clone(&self) -> (r: Self)
        ensures
            r@ == self@,
    {
        let labels = match &self.labels {
            Some(ls) => Some(clone_labels(ls)),
            None => None,
        };
        let host_config = match &self.host_config {
            Some(hc) => Some(hc.clone()),
            None => None,
        };
        let r = ContainerSpec {
            image: clone_opt_string(&self.image),
            tty: self.tty,
            hostname: clone_opt_string(&self.hostname),
            env: clone_opt_string_vec(&self.env),
            labels,
            cmd: clone_opt_string_vec(&self.cmd),
            attach_stderr: self.attach_stderr,
            attach_stdin: self.attach_stdin,
            attach_stdout: self.attach_stdout,
            open_stdin: self.open_stdin,
            host_config,
        };
        assert(r@ =~~= self@);
        r
    }
}

/// Whether two optional strings hold the same text.
pub fn opt_string_eq(a: &Option<String>, b: &Option<String>) -> (r: bool)
    ensures
        r == (opt_str_view(*a) == opt_str_view(*b)),
{
    match (a, b) {
        (Some(x), Some(y)) => x.eq(y),
        (None, None) => true,
        _ => false,
    }
}

/// Whether two optional booleans agree.
pub fn opt_bool_eq(a: &Option<bool>, b: &Option<bool>) -> (r: bool)
    ensures
        r == (*a == *b),
{
    match (a, b) {
        (Some(x), Some(y)) => *x == *y,
        (None, None) => true,
        _ => false,
    }
}

/// Whether two vectors of strings hold the same texts in the same order.
pub fn string_vec_eq(a: &Vec<String>, b: &Vec<String>) -> (r: bool)
    ensures
        r == (strs_view(*a) == strs_view(*b)),
{
    if a.len() != b.len() {
        proof {
            assert(strs_view(*a).len() != strs_view(*b).len());
        }
        return false;
    }
    let mut i: usize = 0;
    while i < a.len()
        invariant
            0 <= i <= a@.len(),
            a@.len() == b@.len(),
            forall|j: int| 0 <= j < i ==> strs_view(*a)[j] == strs_view(*b)[j],
        decreases a@.len() - i,
    {
        if !a[i].eq(&b[i]) {
            proof {
                assert(strs_view(*a)[i as int] != strs_view(*b)[i as int]);
            }
            return false;
        }
        proof {
            assert(strs_view(*a)[i as int] == strs_view(*b)[i as int]);
        }
        i += 1;
    }
    proof {
        assert(strs_view(*a) =~= strs_view(*b));
    }
    true
}

/// Whether two optional vectors of strings agree.
pub fn opt_string_vec_eq(a: &Option<Vec<String>>, b: &Option<Vec<String>>) -> (r: bool)
    ensures
        r == (opt_strs_view(*a) == opt_strs_view(*b)),
{
    match (a, b) {
        (Some(x), Some(y)) => string_vec_eq(x, y),
        (None, None) => true,
        _ => false,
    }
}

/// Whether two vectors of labels agree pairwise.
pub fn labels_eq(a: &Vec<LabelPair>, b: &Vec<LabelPair>) -> (r: bool)
    ensures
        r == (labels_view(*a) == labels_view(*b)),
{
    if a.len() != b.len() {
        proof {
            assert(labels_view(*a).len() != labels_view(*b).len());
        }
        return false;
    }
    let mut i: usize = 0;
    while i < a.len()
        invariant
            0 <= i <= a@.len(),
            a@.len() == b@.len(),
            forall|j: int| 0 <= j < i ==> labels_view(*a)[j] == labels_view(*b)[j],
        decreases a@.len() - i,
    {
        if !(a[i].key.eq(&b[i].key) && a[i].value.eq(&b[i].value)) {
            proof {
                assert(labels_view(*a)[i as int] != labels_view(*b)[i as int]);
            }
            return false;
        }
        proof {
            assert(labels_view(*a)[i as int] =~= labels_view(*b)[i as int]);
        }
        i += 1;
    }
    proof {
        assert(labels_view(*a) =~= labels_view(*b));
    }
    true
}

/// Whether two optional vectors of labels agree.
pub fn opt_labels_eq(a: &Option<Vec<LabelPair>>, b: &Option<Vec<LabelPair>>) -> (r: bool)
    ensures
        r == (opt_labels_view(*a) == opt_labels_view(*b)),
{
    match (a, b) {
        (Some(x), Some(y)) => labels_eq(x, y),
        (None, None) => true,
        _ => false,
    }
}

/// Whether two vectors of device mappings agree pairwise.
pub fn devices_eq(a: &Vec<DeviceMapping>, b: &Vec<DeviceMapping>) -> (r: bool)
    ensures
        r == (a@.map_values(|d: DeviceMapping| d@) == b@.map_values(|d: DeviceMapping| d@)),
{
    if a.len() != b.len() {
        proof {
            assert(a@.map_values(|d: DeviceMapping| d@).len() != b@.map_values(
                |d: DeviceMapping| d@,
            ).len());
        }
        return false;
    }
    let mut i: usize = 0;
    while i < a.len()
        invariant
            0 <= i <= a@.len(),
            a@.len() == b@.len(),
            forall|j: int| 0 <= j < i ==> (#[trigger] a@[j])@ == b@[j]@,
        decreases a@.len() - i,
    {
        let same = opt_string_eq(&a[i].path_on_host, &b[i].path_on_host) && opt_string_eq(
            &a[i].path_in_container,
            &b[i].path_in_container,
        ) && opt_string_eq(&a[i].cgroup_permissions, &b[i].cgroup_permissions);
        if !same {
            proof {
                assert(a@.map_values(|d: DeviceMapping| d@)[i as int] != b@.map_values(
                    |d: DeviceMapping| d@,
                )[i as int]);
            }
            return false;
        }
        proof {
            assert(a@[i as int]@ =~= b@[i as int]@);
        }
        i += 1;
    }
    proof {
        assert forall|j: int|
            0 <= j < a@.len() implies (#[trigger] a@[j])@ == b@[j]@ by {
        }
        assert(a@.map_values(|d: DeviceMapping| d@) =~= b@.map_values(
            |d: DeviceMapping| d@,
        ));
    }
    true
}

/// Whether two optional vectors of device mappings agree.
pub fn opt_devices_eq(a: &Option<Vec<DeviceMapping>>, b: &Option<Vec<DeviceMapping>>) -> (r:
    bool)
    ensures
        r == (opt_devices_view(*a) == opt_devices_view(*b)),
{
    match (a, b) {
        (Some(x), Some(y)) => devices_eq(x, y),
        (None, None) => true,
        _ => false,
    }
}

/// Whether two host configurations agree.
pub fn host_config_eq(a: &HostConfig, b: &HostConfig) -> (r: bool)
    ensures
        r == (a@ == b@),
{
    let same = opt_string_eq(&a.network_mode, &b.network_mode) && opt_string_vec_eq(
        &a.binds,
        &b.binds,
    ) && opt_devices_eq(&a.devices, &b.devices) && opt_string_vec_eq(&a.cap_add, &b.cap_add);
    proof {
        if same {
            assert(a@ =~= b@);
        }
    }
    same
}

/// Whether two optional host configurations agree.
pub fn opt_host_config_eq(a: &Option<HostConfig>, b: &Option<HostConfig>) -> (r: bool)
    ensures
        r == (opt_host_config_view(*a) == opt_host_config_view(*b)),
{
    match (a, b) {
        (Some(x), Some(y)) => host_config_eq(x, y),
        (None, None) => true,
        _ => false,
    }
}

/// Whether two container configurations agree.
pub fn container_spec_eq(a: &ContainerSpec, b: &ContainerSpec) -> (r: bool)
    ensures
        r == (a@ == b@),
{
    let same = opt_string_eq(&a.image, &b.image) && opt_bool_eq(&a.tty, &b.tty)
        && opt_string_eq(&a.hostname, &b.hostname) && opt_string_vec_eq(&a.env, &b.env)
        && opt_labels_eq(&a.labels, &b.labels) && opt_string_vec_eq(&a.cmd, &b.cmd)
        && opt_bool_eq(&a.attach_stderr, &b.attach_stderr) && opt_bool_eq(
        &a.attach_stdin,
        &b.attach_stdin,
    ) && opt_bool_eq(&a.attach_stdout, &b.attach_stdout) && opt_bool_eq(
        &a.open_stdin,
        &b.open_stdin,
    ) && opt_host_config_eq(&a.host_config, &b.host_config);
    proof {
        if same {
            assert(a@ =~= b@);
        }
    }
    same
}

/// Whether two optional container configurations agree.
pub fn opt_container_spec_eq(a: &Option<ContainerSpec>, b: &Option<ContainerSpec>) -> (r:
    bool)
    ensures
        r == (crate::cargo_spec::opt_container_view(*a) == crate::cargo_spec::opt_container_view(*b)),
{
    match (a, b) {
        (Some(x), Some(y)) => container_spec_eq(x, y),
        (None, None) => true,
        _ => false,
    }
}

} // verus!

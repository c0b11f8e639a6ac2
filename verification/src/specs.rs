//! Spec revisions: the immutable rows of the versioned spec store, and their
//! conversions from the partial payloads and to the resolved forms.

use vstd::prelude::*;

use crate::cargo_spec::{CargoSpec, CargoSpecPartial, CargoSpecPartialView, CargoSpecView};
use crate::container::{clone_opt_string, opt_str_view};
use crate::err::{ApiError, ErrorKind};
use crate::host;
use crate::vm_spec::{
    spec_default_vm_host_config, VmHostConfig, VmSpec, VmSpecPartial, VmSpecPartialView,
    VmSpecView,
};

verus! {

/// Payload of a spec revision.  Cargo and machine payloads are structured;
/// any other payload rides as its serialised text.
#[derive(Debug)]
pub enum SpecData {
    Cargo(CargoSpecPartial),
    Vm(VmSpecPartial),
    Json(String),
}

/// View of a spec payload.
#[verifier::ext_equal]
pub ghost enum SpecDataView {
    Cargo(CargoSpecPartialView),
    Vm(VmSpecPartialView),
    Json(Seq<char>),
}

impl View for SpecData {
    type V = SpecDataView;

    open spec fn view(&self) -> SpecDataView {
        match self {
            SpecData::Cargo(p) => SpecDataView::Cargo(p@),
            SpecData::Vm(p) => SpecDataView::Vm(p@),
            SpecData::Json(s) => SpecDataView::Json(s@),
        }
    }
}

impl Clone for SpecData {
    /// The clone keeps the view.
    fn clone(&self) -> (r: Self)
        ensures
            r@ == self@,
    {
        match self {
            SpecData::Cargo(p) => SpecData::Cargo(p.clone()),
            SpecData::Vm(p) => SpecData::Vm(p.clone()),
            SpecData::Json(s) => SpecData::Json(s.clone()),
        }
    }
}

/// One immutable spec revision.  Once inserted a revision is never edited;
/// the revisions of one `kind_key` form the object's history.
#[derive(Debug)]
pub struct SpecDb {
    /// Unique identifier of the revision.
    pub key: u128,
    /// Creation instant, in milliseconds since the epoch.
    pub created_at: i64,
    /// Kind of the owning object.
    pub kind_name: String,
    /// Key of the owning object.
    pub kind_key: String,
    /// Version the revision was written under.
    pub version: String,
    /// The payload.
    pub data: SpecData,
    /// User-defined metadata, carried as its serialised text.
    pub metadata: Option<String>,
}

/// View of a spec revision.
#[verifier::ext_equal]
pub ghost struct SpecDbView {
    pub key: u128,
    pub created_at: i64,
    pub kind_name: Seq<char>,
    pub kind_key: Seq<char>,
    pub version: Seq<char>,
    pub data: SpecDataView,
    pub metadata: Option<Seq<char>>,
}

impl View for SpecDb {
    type V = SpecDbView;

    open spec fn view(&self) -> SpecDbView {
        SpecDbView {
            key: self.key,
            created_at: self.created_at,
            kind_name: self.kind_name@,
            kind_key: self.kind_key@,
            version: self.version@,
            data: self.data@,
            metadata: opt_str_view(self.metadata),
        }
    }
}

impl Clone for SpecDb {
    /// The clone keeps the view.
    fn clone(&self) -> (r: Self)
        ensures
            r@ == self@,
    {
        let r = SpecDb {
            key: self.key,
            created_at: self.created_at,
            kind_name: self.kind_name.clone(),
            kind_key: self.kind_key.clone(),
            version: self.version.clone(),
            data: self.data.clone(),
            metadata: clone_opt_string(&self.metadata),
        };
        assert(r@ =~~= self@);
        r
    }
}

impl SpecDb {
    /// Mint the revision row of a cargo payload.  The identifier is freshly
    /// drawn and the instant is the host's, so neither is pinned; everything
    /// else is the caller's data.
    pub fn try_from_cargo_partial(key: &str, version: &str, item: CargoSpecPartial) -> (r:
        SpecDb)
        ensures
            r@.kind_name == "Cargo"@,
            r@.kind_key == key@,
            r@.version == version@,
            r@.data == SpecDataView::Cargo(item@),
            r@.metadata == item@.metadata,
    {
        let metadata = clone_opt_string(&item.metadata);
        SpecDb {
            key: host::fresh_key(),
            created_at: host::now_millis(),
            kind_name: String::from_str("Cargo"),
            kind_key: key.to_owned(),
            version: version.to_owned(),
            data: SpecData::Cargo(item),
            metadata,
        }
    }

    /// Mint the revision row of a machine payload, as
    /// [`Self::try_from_cargo_partial`] does for a cargo.
    pub fn try_from_vm_partial(key: &str, version: &str, item: VmSpecPartial) -> (r: SpecDb)
        ensures
            r@.kind_name == "Vm"@,
            r@.kind_key == key@,
            r@.version == version@,
            r@.data == SpecDataView::Vm(item@),
            r@.metadata == item@.metadata,
    {
        let metadata = clone_opt_string(&item.metadata);
        SpecDb {
            key: host::fresh_key(),
            created_at: host::now_millis(),
            kind_name: String::from_str("Vm"),
            kind_key: key.to_owned(),
            version: version.to_owned(),
            data: SpecData::Vm(item),
            metadata,
        }
    }

    /// Mint the revision row of a resource payload, which rides as its
    /// serialised text, as [`Self::try_from_cargo_partial`] does for a
    /// cargo.
    pub fn try_from_resource(key: &str, version: &str, data: String) -> (r: SpecDb)
        ensures
            r@.kind_name == "Resource"@,
            r@.kind_key == key@,
            r@.version == version@,
            r@.data == SpecDataView::Json(data@),
            r@.metadata is None,
    {
        SpecDb {
            key: host::fresh_key(),
            created_at: host::now_millis(),
            kind_name: String::from_str("Resource"),
            kind_key: key.to_owned(),
            version: version.to_owned(),
            data: SpecData::Json(data),
            metadata: None,
        }
    }

    /// Resolve the revision as a cargo spec.  Fails with a validation error
    /// when the payload is not a cargo payload.
    pub fn try_to_cargo_spec(&self) -> (r: Result<CargoSpec, ApiError>)
        ensures
            r is Ok <==> self@.data is Cargo,
            r is Ok ==> r->Ok_0@ == (CargoSpecView {
                key: self@.key,
                cargo_key: self@.kind_key,
                version: self@.version,
                created_at: self@.created_at,
                name: self@.data->Cargo_0.name,
                metadata: self@.metadata,
                init_container: self@.data->Cargo_0.init_container,
                secrets: self@.data->Cargo_0.secrets,
                container: self@.data->Cargo_0.container,
                replication: self@.data->Cargo_0.replication,
            }),
            r is Err ==> r->Err_0.kind == ErrorKind::Validation,
    {
        match &self.data {
            SpecData::Cargo(p) => {
                let p = p.clone();
                let r = CargoSpec {
                    key: self.key,
                    cargo_key: self.kind_key.clone(),
                    version: self.version.clone(),
                    created_at: self.created_at,
                    name: p.name,
                    metadata: clone_opt_string(&self.metadata),
                    init_container: p.init_container,
                    secrets: p.secrets,
                    container: p.container,
                    replication: p.replication,
                };
                assert(r@ =~~= (CargoSpecView {
                    key: self@.key,
                    cargo_key: self@.kind_key,
                    version: self@.version,
                    created_at: self@.created_at,
                    name: self@.data->Cargo_0.name,
                    metadata: self@.metadata,
                    init_container: self@.data->Cargo_0.init_container,
                    secrets: self@.data->Cargo_0.secrets,
                    container: self@.data->Cargo_0.container,
                    replication: self@.data->Cargo_0.replication,
                }));
                Ok(r)
            },
            _ => Err(
                ApiError::new(
                    ErrorKind::Validation,
                    String::from_str("spec payload is not a cargo payload"),
                ),
            ),
        }
    }

    /// Resolve the revision as a machine spec, an absent host configuration
    /// falling back to the default.  Fails with a validation error when the
    /// payload is not a machine payload.
    pub fn try_to_vm_spec(&self) -> (r: Result<VmSpec, ApiError>)
        ensures
            r is Ok <==> self@.data is Vm,
            r is Ok ==> r->Ok_0@ == (VmSpecView {
                key: self@.key,
                vm_key: self@.kind_key,
                version: self@.version,
                created_at: self@.created_at,
                name: self@.data->Vm_0.name,
                metadata: self@.metadata,
                hostname: self@.data->Vm_0.hostname,
                password: self@.data->Vm_0.password,
                disk: self@.data->Vm_0.disk,
                host_config: match self@.data->Vm_0.host_config {
                    Some(h) => h,
                    None => spec_default_vm_host_config(),
                },
                ssh_key: self@.data->Vm_0.ssh_key,
                user: self@.data->Vm_0.user,
                mac_address: self@.data->Vm_0.mac_address,
                labels: self@.data->Vm_0.labels,
            }),
            r is Err ==> r->Err_0.kind == ErrorKind::Validation,
    {
        match &self.data {
            SpecData::Vm(p) => {
                let p = p.clone();
                let host_config = match p.host_config {
                    Some(h) => h,
                    None => VmHostConfig::new_default(),
                };
                let r = VmSpec {
                    key: self.key,
                    vm_key: self.kind_key.clone(),
                    version: self.version.clone(),
                    created_at: self.created_at,
                    name: p.name,
                    metadata: clone_opt_string(&self.metadata),
                    hostname: p.hostname,
                    password: p.password,
                    disk: p.disk,
                    host_config,
                    ssh_key: p.ssh_key,
                    user: p.user,
                    mac_address: p.mac_address,
                    labels: p.labels,
                };
                assert(r@ =~~= (VmSpecView {
                    key: self@.key,
                    vm_key: self@.kind_key,
                    version: self@.version,
                    created_at: self@.created_at,
                    name: self@.data->Vm_0.name,
                    metadata: self@.metadata,
                    hostname: self@.data->Vm_0.hostname,
                    password: self@.data->Vm_0.password,
                    disk: self@.data->Vm_0.disk,
                    host_config: match self@.data->Vm_0.host_config {
                        Some(h) => h,
                        None => spec_default_vm_host_config(),
                    },
                    ssh_key: self@.data->Vm_0.ssh_key,
                    user: self@.data->Vm_0.user,
                    mac_address: self@.data->Vm_0.mac_address,
                    labels: self@.data->Vm_0.labels,
                }));
                Ok(r)
            },
            _ => Err(
                ApiError::new(
                    ErrorKind::Validation,
                    String::from_str("spec payload is not a machine payload"),
                ),
            ),
        }
    }
}

/// A resolved resource spec revision: the payload rides as its serialised
/// text.
#[derive(Debug)]
pub struct ResourceSpec {
    /// Unique identifier of the revision.
    pub key: u128,
    /// Version the revision was written under.
    pub version: String,
    /// Creation instant, in milliseconds since the epoch.
    pub created_at: i64,
    /// Key of the owning resource.
    pub resource_key: String,
    /// The payload, as serialised text.
    pub data: String,
    /// User-defined metadata, carried as its serialised text.
    pub metadata: Option<String>,
}

/// View of a resolved resource spec revision.
#[verifier::ext_equal]
pub ghost struct ResourceSpecView {
    pub key: u128,
    pub version: Seq<char>,
    pub created_at: i64,
    pub resource_key: Seq<char>,
    pub data: Seq<char>,
    pub metadata: Option<Seq<char>>,
}

impl View for ResourceSpec {
    type V = ResourceSpecView;

    open spec fn view(&self) -> ResourceSpecView {
        ResourceSpecView {
            key: self.key,
            version: self.version@,
            created_at: self.created_at,
            resource_key: self.resource_key@,
            data: self.data@,
            metadata: opt_str_view(self.metadata),
        }
    }
}

/// The text of a payload: serialised payloads as they stand, structured ones
/// as nothing.
pub open spec fn spec_data_text(d: SpecDataView) -> Seq<char> {
    match d {
        SpecDataView::Json(s) => s,
        _ => Seq::<char>::empty(),
    }
}

impl SpecDb {
    /// Resolve the revision as a resource spec: the identifying fields carry
    /// over and the payload rides as its text.
    pub fn into_resource_spec(self) -> (r: ResourceSpec)
        ensures
            r@.key == self@.key,
            r@.version == self@.version,
            r@.created_at == self@.created_at,
            r@.resource_key == self@.kind_key,
            r@.data == spec_data_text(self@.data),
            r@.metadata == self@.metadata,
    {
        let data = match self.data {
            SpecData::Json(s) => s,
            _ => String::new(),
        };
        ResourceSpec {
            key: self.key,
            version: self.version,
            created_at: self.created_at,
            resource_key: self.kind_key,
            data,
            metadata: self.metadata,
        }
    }
}

} // verus!

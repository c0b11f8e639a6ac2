//! Rows of the store: one structure per table, each with its ghost view.

use vstd::prelude::*;

use crate::container::{clone_opt_string, opt_str_view};
use crate::status::ObjPsStatus;

verus! {

/// Kind of a process-bearing object.
#[derive(Clone, Copy, Debug, PartialEq, Eq, Structural)]
pub enum ProcessKind {
    Cargo,
    Vm,
    Job,
}

impl ProcessKind {
    /// Wire name of the kind.
    pub fn to_str(&self) -> (r: &'static str)
        ensures
            r@ == self.spec_str(),
    {
        proof {
            reveal_strlit("cargo");
            reveal_strlit("vm");
            reveal_strlit("job");
        }
        match self {
            ProcessKind::Cargo => "cargo",
            ProcessKind::Vm => "vm",
            ProcessKind::Job => "job",
        }
    }

    /// The wire name in specification form.
    pub open spec fn spec_str(self) -> Seq<char> {
        match self {
            ProcessKind::Cargo => "cargo"@,
            ProcessKind::Vm => "vm"@,
            ProcessKind::Job => "job"@,
        }
    }
}

/// A namespace row: a named grouping for cargoes and machines.
#[derive(Debug)]
pub struct NamespaceDb {
    pub name: String,
    pub created_at: i64,
}

/// View of a namespace row.
#[verifier::ext_equal]
pub ghost struct NamespaceDbView {
    pub name: Seq<char>,
    pub created_at: i64,
}

impl View for NamespaceDb {
    type V = NamespaceDbView;

    open spec fn view(&self) -> NamespaceDbView {
        NamespaceDbView { name: self.name@, created_at: self.created_at }
    }
}

impl Clone for NamespaceDb {
    /// The clone keeps the view.
    fn clone(&self) -> (r: Self)
        ensures
            r@ == self@,
    {
        NamespaceDb { name: self.name.clone(), created_at: self.created_at }
    }
}

/// A cargo row.  The row points at the current spec revision; the history is
/// the revisions themselves.
#[derive(Debug)]
pub struct CargoDb {
    /// Key of the cargo: its name qualified by its namespace.
    pub key: String,
    pub created_at: i64,
    pub name: String,
    /// Current spec revision.
    pub spec_key: u128,
    pub namespace_name: String,
}

/// View of a cargo row.
#[verifier::ext_equal]
pub ghost struct CargoDbView {
    pub key: Seq<char>,
    pub created_at: i64,
    pub name: Seq<char>,
    pub spec_key: u128,
    pub namespace_name: Seq<char>,
}

impl View for CargoDb {
    type V = CargoDbView;

    open spec fn view(&self) -> CargoDbView {
        CargoDbView {
            key: self.key@,
            created_at: self.created_at,
            name: self.name@,
            spec_key: self.spec_key,
            namespace_name: self.namespace_name@,
        }
    }
}

impl Clone for CargoDb {
    /// The clone keeps the view.
    fn clone(&self) -> (r: Self)
        ensures
            r@ == self@,
    {
        CargoDb {
            key: self.key.clone(),
            created_at: self.created_at,
            name: self.name.clone(),
            spec_key: self.spec_key,
            namespace_name: self.namespace_name.clone(),
        }
    }
}

/// A virtual-machine row, shaped as a cargo row.
#[derive(Debug)]
pub struct VmDb {
    /// Key of the machine: its qualified name with the machine mark.
    pub key: String,
    pub created_at: i64,
    pub name: String,
    /// Current spec revision.
    pub spec_key: u128,
    pub namespace_name: String,
}

/// View of a machine row.
#[verifier::ext_equal]
pub ghost struct VmDbView {
    pub key: Seq<char>,
    pub created_at: i64,
    pub name: Seq<char>,
    pub spec_key: u128,
    pub namespace_name: Seq<char>,
}

impl View for VmDb {
    type V = VmDbView;

    open spec fn view(&self) -> VmDbView {
        VmDbView {
            key: self.key@,
            created_at: self.created_at,
            name: self.name@,
            spec_key: self.spec_key,
            namespace_name: self.namespace_name@,
        }
    }
}

impl Clone for VmDb {
    /// The clone keeps the view.
    fn clone(&self) -> (r: Self)
        ensures
            r@ == self@,
    {
        VmDb {
            key: self.key.clone(),
            created_at: self.created_at,
            name: self.name.clone(),
            spec_key: self.spec_key,
            namespace_name: self.namespace_name.clone(),
        }
    }
}

/// A job row: jobs are single-revision, their payload rides inline.
#[derive(Debug)]
pub struct JobDb {
    pub key: String,
    pub created_at: i64,
    pub updated_at: i64,
    /// The payload, as serialised text.
    pub data: String,
    pub metadata: Option<String>,
}

/// View of a job row.
#[verifier::ext_equal]
pub ghost struct JobDbView {
    pub key: Seq<char>,
    pub created_at: i64,
    pub updated_at: i64,
    pub data: Seq<char>,
    pub metadata: Option<Seq<char>>,
}

impl View for JobDb {
    type V = JobDbView;

    open spec fn view(&self) -> JobDbView {
        JobDbView {
            key: self.key@,
            created_at: self.created_at,
            updated_at: self.updated_at,
            data: self.data@,
            metadata: opt_str_view(self.metadata),
        }
    }
}

/// A resource row.
#[derive(Debug)]
pub struct ResourceDb {
    /// The key of the resource.
    pub key: String,
    /// The creation instant.
    pub created_at: i64,
    /// The kind of the resource, deciding which controller consumes it.
    pub kind: String,
    /// The current spec revision.
    pub spec_key: u128,
}

/// View of a resource row.
#[verifier::ext_equal]
pub ghost struct ResourceDbView {
    pub key: Seq<char>,
    pub created_at: i64,
    pub kind: Seq<char>,
    pub spec_key: u128,
}

impl View for ResourceDb {
    type V = ResourceDbView;

    open spec fn view(&self) -> ResourceDbView {
        ResourceDbView {
            key: self.key@,
            created_at: self.created_at,
            kind: self.kind@,
            spec_key: self.spec_key,
        }
    }
}

impl Clone for ResourceDb {
    /// The clone keeps the view.
    fn clone(&self) -> (r: Self)
        ensures
            r@ == self@,
    {
        ResourceDb {
            key: self.key.clone(),
            created_at: self.created_at,
            kind: self.kind.clone(),
            spec_key: self.spec_key,
        }
    }
}

/// Partial update of a resource row: absent fields keep their old value.
#[derive(Debug)]
pub struct ResourceUpdateDb {
    /// New key of the resource.
    pub key: Option<String>,
    /// New current spec revision.
    pub spec_key: Option<u128>,
}

/// A process row: one observed container instance, owned by its parent
/// object through `kind_key`.
#[derive(Debug)]
pub struct ProcessDb {
    /// Container identifier.
    pub key: String,
    pub created_at: i64,
    pub updated_at: i64,
    /// Container name.
    pub name: String,
    /// Kind of the owning object.
    pub kind: ProcessKind,
    /// Node the container runs on.
    pub node_key: String,
    /// Key of the owning object.
    pub kind_key: String,
    /// Whether the runtime reports the container as running.
    pub running: bool,
}

/// View of a process row.
#[verifier::ext_equal]
pub ghost struct ProcessDbView {
    pub key: Seq<char>,
    pub created_at: i64,
    pub updated_at: i64,
    pub name: Seq<char>,
    pub kind: ProcessKind,
    pub node_key: Seq<char>,
    pub kind_key: Seq<char>,
    pub running: bool,
}

impl View for ProcessDb {
    type V = ProcessDbView;

    open spec fn view(&self) -> ProcessDbView {
        ProcessDbView {
            key: self.key@,
            created_at: self.created_at,
            updated_at: self.updated_at,
            name: self.name@,
            kind: self.kind,
            node_key: self.node_key@,
            kind_key: self.kind_key@,
            running: self.running,
        }
    }
}

impl Clone for ProcessDb {
    /// The clone keeps the view.
    fn clone(&self) -> (r: Self)
        ensures
            r@ == self@,
    {
        ProcessDb {
            key: self.key.clone(),
            created_at: self.created_at,
            updated_at: self.updated_at,
            name: self.name.clone(),
            kind: self.kind,
            node_key: self.node_key.clone(),
            kind_key: self.kind_key.clone(),
            running: self.running,
        }
    }
}

/// Type of a column in the store's backend, deciding which clauses apply
/// to it.
#[derive(Clone, Copy, Debug, PartialEq, Eq, Structural)]
pub enum ColumnType {
    Text,
    Uuid,
    Timestamptz,
    Jsonb,
}

/// A node row: one daemon of the cluster.
#[derive(Debug)]
pub struct NodeDb {
    pub name: String,
    pub ip_address: String,
    pub created_at: i64,
}

/// View of a node row.
#[verifier::ext_equal]
pub ghost struct NodeDbView {
    pub name: Seq<char>,
    pub ip_address: Seq<char>,
    pub created_at: i64,
}

impl View for NodeDb {
    type V = NodeDbView;

    open spec fn view(&self) -> NodeDbView {
        NodeDbView {
            name: self.name@,
            ip_address: self.ip_address@,
            created_at: self.created_at,
        }
    }
}

impl Clone for NodeDb {
    /// The clone keeps the view.
    fn clone(&self) -> (r: Self)
        ensures
            r@ == self@,
    {
        NodeDb {
            name: self.name.clone(),
            ip_address: self.ip_address.clone(),
            created_at: self.created_at,
        }
    }
}

/// One entry of a column whitelist: the filterable column with its type.
/// A filter key outside the whitelist is ignored, so unknown keys from
/// newer clients do no harm.
#[derive(Debug)]
pub struct ColumnDef {
    pub name: String,
    pub column_type: ColumnType,
}

impl NodeDb {
    /// The column whitelist of the node table.
    pub fn get_columns() -> (r: Vec<ColumnDef>)
        ensures
            r@.len() == 3,
            r@[0].name@ == "name"@ && r@[0].column_type == ColumnType::Text,
            r@[1].name@ == "ip_address"@ && r@[1].column_type == ColumnType::Text,
            r@[2].name@ == "created_at"@ && r@[2].column_type == ColumnType::Timestamptz,
    {
        let mut cols: Vec<ColumnDef> = Vec::new();
        cols.push(
            ColumnDef { name: String::from_str("name"), column_type: ColumnType::Text },
        );
        cols.push(
            ColumnDef {
                name: String::from_str("ip_address"),
                column_type: ColumnType::Text,
            },
        );
        cols.push(
            ColumnDef {
                name: String::from_str("created_at"),
                column_type: ColumnType::Timestamptz,
            },
        );
        cols
    }
}

/// A secret row.
#[derive(Debug)]
pub struct SecretDb {
    pub key: String,
    pub created_at: i64,
    pub updated_at: i64,
    pub kind: String,
    /// An immutable secret rejects every later patch.
    pub immutable: bool,
    /// The payload, as serialised text.
    pub data: String,
    pub metadata: Option<String>,
}

/// View of a secret row.
#[verifier::ext_equal]
pub ghost struct SecretDbView {
    pub key: Seq<char>,
    pub created_at: i64,
    pub updated_at: i64,
    pub kind: Seq<char>,
    pub immutable: bool,
    pub data: Seq<char>,
    pub metadata: Option<Seq<char>>,
}

impl View for SecretDb {
    type V = SecretDbView;

    open spec fn view(&self) -> SecretDbView {
        SecretDbView {
            key: self.key@,
            created_at: self.created_at,
            updated_at: self.updated_at,
            kind: self.kind@,
            immutable: self.immutable,
            data: self.data@,
            metadata: opt_str_view(self.metadata),
        }
    }
}

impl Clone for SecretDb {
    /// The clone keeps the view.
    fn clone(&self) -> (r: Self)
        ensures
            r@ == self@,
    {
        SecretDb {
            key: self.key.clone(),
            created_at: self.created_at,
            updated_at: self.updated_at,
            kind: self.kind.clone(),
            immutable: self.immutable,
            data: self.data.clone(),
            metadata: clone_opt_string(&self.metadata),
        }
    }
}

/// A status row: the lifecycle status of one object.
#[derive(Debug)]
pub struct ObjPsStatusDb {
    /// Key of the object.
    pub key: String,
    /// The status pair with its previous values.
    pub status: ObjPsStatus,
}

/// View of a status row.
#[verifier::ext_equal]
pub ghost struct ObjPsStatusDbView {
    pub key: Seq<char>,
    pub status: ObjPsStatus,
}

impl View for ObjPsStatusDb {
    type V = ObjPsStatusDbView;

    open spec fn view(&self) -> ObjPsStatusDbView {
        ObjPsStatusDbView { key: self.key@, status: self.status }
    }
}

impl Clone for ObjPsStatusDb {
    /// The clone keeps the view.
    fn clone(&self) -> (r: Self)
        ensures
            r@ == self@,
    {
        ObjPsStatusDb { key: self.key.clone(), status: self.status }
    }
}

} // verus!

//! Cargo specifications: the partial form used to create a cargo, the update
//! form used to patch one, the resolved revision, and the replication policy
//! that decides how many container instances a node runs.

use vstd::prelude::*;

use crate::container::{
    clone_opt_string, clone_opt_string_vec, clone_string_vec, opt_str_view, opt_strs_view,
    strs_view, ContainerSpec, ContainerSpecView,
};
use crate::generic::{contains_str, seq_contains_str};

verus! {

/// A fixed replica count.
#[derive(Clone, Copy, Debug, PartialEq, Eq, Structural)]
pub struct ReplicationStatic {
    pub number: usize,
}

/// Replication policy of a cargo.  The reconciler intersects the policy with
/// the identity of the current node to derive the container count it owns.
#[derive(Debug)]
pub enum ReplicationMode {
    /// Keep at least one replica in the cluster.
    Auto,
    /// Keep exactly one replica in the cluster.
    Unique,
    /// One replica on every node.
    UniqueByNode,
    /// One replica on every node of the listed groups.
    UniqueByNodeGroups { groups: Vec<String> },
    /// One replica on every listed node.
    UniqueByNodeNames { names: Vec<String> },
    /// A fixed count on this node.
    Static(ReplicationStatic),
    /// A fixed count on every node.
    StaticByNodes(ReplicationStatic),
    /// A fixed count on every node of the listed groups.
    StaticByNodeGroups { groups: Vec<String>, number: i64 },
    /// A fixed count on every listed node.
    StaticByNodeNames { names: Vec<String>, number: i64 },
}

/// View of a replication policy.
#[verifier::ext_equal]
pub ghost enum ReplicationModeView {
    Auto,
    Unique,
    UniqueByNode,
    UniqueByNodeGroups { groups: Seq<Seq<char>> },
    UniqueByNodeNames { names: Seq<Seq<char>> },
    Static { number: usize },
    StaticByNodes { number: usize },
    StaticByNodeGroups { groups: Seq<Seq<char>>, number: i64 },
    StaticByNodeNames { names: Seq<Seq<char>>, number: i64 },
}

impl View for ReplicationMode {
    type V = ReplicationModeView;

    open spec fn view(&self) -> ReplicationModeView {
        match self {
            ReplicationMode::Auto => ReplicationModeView::Auto,
            ReplicationMode::Unique => ReplicationModeView::Unique,
            ReplicationMode::UniqueByNode => ReplicationModeView::UniqueByNode,
            ReplicationMode::UniqueByNodeGroups { groups } => {
                ReplicationModeView::UniqueByNodeGroups { groups: strs_view(*groups) }
            },
            ReplicationMode::UniqueByNodeNames { names } => {
                ReplicationModeView::UniqueByNodeNames { names: strs_view(*names) }
            },
            ReplicationMode::Static(s) => ReplicationModeView::Static { number: s.number },
            ReplicationMode::StaticByNodes(s) => {
                ReplicationModeView::StaticByNodes { number: s.number }
            },
            ReplicationMode::StaticByNodeGroups { groups, number } => {
                ReplicationModeView::StaticByNodeGroups {
                    groups: strs_view(*groups),
                    number: *number,
                }
            },
            ReplicationMode::StaticByNodeNames { names, number } => {
                ReplicationModeView::StaticByNodeNames {
                    names: strs_view(*names),
                    number: *number,
                }
            },
        }
    }
}

/// View of an optional replication policy.
pub open spec fn opt_replication_view(v: Option<ReplicationMode>) -> Option<
    ReplicationModeView,
> {
    match v {
        Some(m) => Some(m@),
        None => None,
    }
}

impl Clone for ReplicationMode {
    /// The clone keeps the view.
    fn clone(&self) -> (r: Self)
        ensures
            r@ == self@,
    {
        match self {
            ReplicationMode::Auto => ReplicationMode::Auto,
            ReplicationMode::Unique => ReplicationMode::Unique,
            ReplicationMode::UniqueByNode => ReplicationMode::UniqueByNode,
            ReplicationMode::UniqueByNodeGroups { groups } => {
                ReplicationMode::UniqueByNodeGroups { groups: clone_string_vec(groups) }
            },
            ReplicationMode::UniqueByNodeNames { names } => {
                ReplicationMode::UniqueByNodeNames { names: clone_string_vec(names) }
            },
            ReplicationMode::Static(s) => ReplicationMode::Static(*s),
            ReplicationMode::StaticByNodes(s) => ReplicationMode::StaticByNodes(*s),
            ReplicationMode::StaticByNodeGroups { groups, number } => {
                ReplicationMode::StaticByNodeGroups {
                    groups: clone_string_vec(groups),
                    number: *number,
                }
            },
            ReplicationMode::StaticByNodeNames { names, number } => {
                ReplicationMode::StaticByNodeNames {
                    names: clone_string_vec(names),
                    number: *number,
                }
            },
        }
    }
}

/// Clone an optional replication policy, keeping the view.
pub fn clone_opt_replication(v: &Option<ReplicationMode>) -> (r: Option<ReplicationMode>)
    ensures
        opt_replication_view(r) == opt_replication_view(*v),
{
    match v {
        Some(m) => Some(m.clone()),
        None => None,
    }
}

/// Whether two sequences of strings share a member.
pub open spec fn seqs_intersect(a: Seq<Seq<char>>, b: Seq<Seq<char>>) -> bool {
    exists|i: int| 0 <= i < a.len() && seq_contains_str(b, a[i])
}

/// Whether two lists of strings share a member.
pub fn share_member(a: &Vec<String>, b: &Vec<String>) -> (r: bool)
    ensures
        r == seqs_intersect(strs_view(*a), strs_view(*b)),
{
    let mut i: usize = 0;
    while i < a.len()
        invariant
            0 <= i <= a@.len(),
            forall|k: int| 0 <= k < i ==> !seq_contains_str(strs_view(*b), strs_view(*a)[k]),
        decreases a@.len() - i,
    {
        proof {
            assert(strs_view(*a)[i as int] == a@[i as int]@);
        }
        if contains_str(b, &a[i]) {
            return true;
        }
        i += 1;
    }
    false
}

/// The container count a policy assigns to a node, given the node's name and
/// the groups it belongs to.
pub open spec fn spec_target_instances(
    mode: ReplicationModeView,
    node_name: Seq<char>,
    node_groups: Seq<Seq<char>>,
) -> u64 {
    match mode {
        ReplicationModeView::Auto => 1u64,
        ReplicationModeView::Unique => 1u64,
        ReplicationModeView::UniqueByNode => 1u64,
        ReplicationModeView::UniqueByNodeGroups { groups } => {
            if seqs_intersect(groups, node_groups) {
                1u64
            } else {
                0u64
            }
        },
        ReplicationModeView::UniqueByNodeNames { names } => {
            if seq_contains_str(names, node_name) {
                1u64
            } else {
                0u64
            }
        },
        ReplicationModeView::Static { number } => number as u64,
        ReplicationModeView::StaticByNodes { number } => number as u64,
        ReplicationModeView::StaticByNodeGroups { groups, number } => {
            if number > 0 && seqs_intersect(groups, node_groups) {
                number as u64
            } else {
                0u64
            }
        },
        ReplicationModeView::StaticByNodeNames { names, number } => {
            if number > 0 && seq_contains_str(names, node_name) {
                number as u64
            } else {
                0u64
            }
        },
    }
}

/// Derive the container count this node owns under a policy.  A missing
/// policy keeps one replica, as `Auto` does.
pub fn target_instances(
    mode: &Option<ReplicationMode>,
    node_name: &str,
    node_groups: &Vec<String>,
) -> (r: u64)
    ensures
        mode is Some ==> r == spec_target_instances(
            mode->0@,
            node_name@,
            strs_view(*node_groups),
        ),
        mode is None ==> r == 1u64,
{
    let m = match mode {
        Some(m) => m,
        None => { return 1u64 },
    };
    match m {
        ReplicationMode::Auto => 1u64,
        ReplicationMode::Unique => 1u64,
        ReplicationMode::UniqueByNode => 1u64,
        ReplicationMode::UniqueByNodeGroups { groups } => {
            if share_member(groups, node_groups) {
                1u64
            } else {
                0u64
            }
        },
        ReplicationMode::UniqueByNodeNames { names } => {
            if contains_str(names, &node_name.to_owned()) {
                1u64
            } else {
                0u64
            }
        },
        ReplicationMode::Static(s) => s.number as u64,
        ReplicationMode::StaticByNodes(s) => s.number as u64,
        ReplicationMode::StaticByNodeGroups { groups, number } => {
            if *number > 0 && share_member(groups, node_groups) {
                *number as u64
            } else {
                0u64
            }
        },
        ReplicationMode::StaticByNodeNames { names, number } => {
            if *number > 0 && contains_str(names, &node_name.to_owned()) {
                *number as u64
            } else {
                0u64
            }
        },
    }
}

/// Whether two optional replication policies agree.
pub fn opt_replication_eq(a: &Option<ReplicationMode>, b: &Option<ReplicationMode>) -> (r:
    bool)
    ensures
        r == (opt_replication_view(*a) == opt_replication_view(*b)),
{
    match (a, b) {
        (None, None) => true,
        (Some(x), Some(y)) => replication_eq(x, y),
        _ => false,
    }
}

/// Whether two replication policies agree.
pub fn replication_eq(a: &ReplicationMode, b: &ReplicationMode) -> (r: bool)
    ensures
        r == (a@ == b@),
{
    let same = match (a, b) {
        (ReplicationMode::Auto, ReplicationMode::Auto) => true,
        (ReplicationMode::Unique, ReplicationMode::Unique) => true,
        (ReplicationMode::UniqueByNode, ReplicationMode::UniqueByNode) => true,
        (
            ReplicationMode::UniqueByNodeGroups { groups: ga },
            ReplicationMode::UniqueByNodeGroups { groups: gb },
        ) => crate::container::string_vec_eq(ga, gb),
        (
            ReplicationMode::UniqueByNodeNames { names: na },
            ReplicationMode::UniqueByNodeNames { names: nb },
        ) => crate::container::string_vec_eq(na, nb),
        (ReplicationMode::Static(sa), ReplicationMode::Static(sb)) => sa.number == sb.number,
        (ReplicationMode::StaticByNodes(sa), ReplicationMode::StaticByNodes(sb)) => {
            sa.number == sb.number
        },
        (
            ReplicationMode::StaticByNodeGroups { groups: ga, number: na },
            ReplicationMode::StaticByNodeGroups { groups: gb, number: nb },
        ) => *na == *nb && crate::container::string_vec_eq(ga, gb),
        (
            ReplicationMode::StaticByNodeNames { names: ma, number: na },
            ReplicationMode::StaticByNodeNames { names: mb, number: nb },
        ) => *na == *nb && crate::container::string_vec_eq(ma, mb),
        _ => false,
    };
    proof {
        if same {
            assert(a@ =~= b@);
        }
    }
    same
}

/// A cargo spec in its partial form, the payload used to create a cargo.
#[derive(Debug)]
pub struct CargoSpecPartial {
    /// Name of the cargo.
    pub name: String,
    /// User-defined metadata, carried as its serialised text.
    pub metadata: Option<String>,
    /// Container run before the cargo's own containers.
    pub init_container: Option<ContainerSpec>,
    /// Secrets exposed as environment variables.
    pub secrets: Option<Vec<String>>,
    /// Container configuration of the cargo.
    pub container: ContainerSpec,
    /// Replication policy of the cargo.
    pub replication: Option<ReplicationMode>,
}

/// View of a partial cargo spec.
#[verifier::ext_equal]
pub ghost struct CargoSpecPartialView {
    pub name: Seq<char>,
    pub metadata: Option<Seq<char>>,
    pub init_container: Option<ContainerSpecView>,
    pub secrets: Option<Seq<Seq<char>>>,
    pub container: ContainerSpecView,
    pub replication: Option<ReplicationModeView>,
}

/// View of an optional container configuration.
pub open spec fn opt_container_view(v: Option<ContainerSpec>) -> Option<ContainerSpecView> {
    match v {
        Some(c) => Some(c@),
        None => None,
    }
}

impl View for CargoSpecPartial {
    type V = CargoSpecPartialView;

    open spec fn view(&self) -> CargoSpecPartialView {
        CargoSpecPartialView {
            name: self.name@,
            metadata: opt_str_view(self.metadata),
            init_container: opt_container_view(self.init_container),
            secrets: opt_strs_view(self.secrets),
            container: self.container@,
            replication: opt_replication_view(self.replication),
        }
    }
}

/// Clone an optional container configuration, keeping the view.
pub fn clone_opt_container(v: &Option<ContainerSpec>) -> (r: Option<ContainerSpec>)
    ensures
        opt_container_view(r) == opt_container_view(*v),
{
    match v {
        Some(c) => {
            let d = c.clone();
            assert(opt_container_view(Some(d)) =~= opt_container_view(Some(*c)));
            Some(d)
        },
        None => None,
    }
}

impl Clone for CargoSpecPartial {
    /// The clone keeps the view.
    fn clone(&self) -> (r: Self)
        ensures
            r@ == self@,
    {
        let r = CargoSpecPartial {
            name: self.name.clone(),
            metadata: clone_opt_string(&self.metadata),
            init_container: clone_opt_container(&self.init_container),
            secrets: clone_opt_string_vec(&self.secrets),
            container: self.container.clone(),
            replication: clone_opt_replication(&self.replication),
        };
        assert(r@ =~~= self@);
        r
    }
}

/// Payload used to patch a cargo: every present field replaces the old one,
/// every absent field keeps it.  Patching mints a new revision and keeps the
/// old one in the history.
#[derive(Debug)]
pub struct CargoSpecUpdate {
    pub name: Option<String>,
    pub metadata: Option<String>,
    pub init_container: Option<ContainerSpec>,
    pub secrets: Option<Vec<String>>,
    pub container: Option<ContainerSpec>,
    pub replication: Option<ReplicationMode>,
}

/// View of a cargo spec update.
#[verifier::ext_equal]
pub ghost struct CargoSpecUpdateView {
    pub name: Option<Seq<char>>,
    pub metadata: Option<Seq<char>>,
    pub init_container: Option<ContainerSpecView>,
    pub secrets: Option<Seq<Seq<char>>>,
    pub container: Option<ContainerSpecView>,
    pub replication: Option<ReplicationModeView>,
}

impl View for CargoSpecUpdate {
    type V = CargoSpecUpdateView;

    open spec fn view(&self) -> CargoSpecUpdateView {
        CargoSpecUpdateView {
            name: opt_str_view(self.name),
            metadata: opt_str_view(self.metadata),
            init_container: opt_container_view(self.init_container),
            secrets: opt_strs_view(self.secrets),
            container: opt_container_view(self.container),
            replication: opt_replication_view(self.replication),
        }
    }
}

/// A resolved cargo spec revision.
#[derive(Debug)]
pub struct CargoSpec {
    /// Unique identifier of the revision.
    pub key: u128,
    /// Key of the cargo the revision belongs to.
    pub cargo_key: String,
    /// Version the revision was written under.
    pub version: String,
    /// Creation instant of the revision, in milliseconds since the epoch.
    pub created_at: i64,
    /// Name of the cargo.
    pub name: String,
    /// User-defined metadata, carried as its serialised text.
    pub metadata: Option<String>,
    /// Container run before the cargo's own containers.
    pub init_container: Option<ContainerSpec>,
    /// Secrets exposed as environment variables.
    pub secrets: Option<Vec<String>>,
    /// Container configuration of the cargo.
    pub container: ContainerSpec,
    /// Replication policy of the cargo.
    pub replication: Option<ReplicationMode>,
}

/// View of a resolved cargo spec revision.
#[verifier::ext_equal]
pub ghost struct CargoSpecView {
    pub key: u128,
    pub cargo_key: Seq<char>,
    pub version: Seq<char>,
    pub created_at: i64,
    pub name: Seq<char>,
    pub metadata: Option<Seq<char>>,
    pub init_container: Option<ContainerSpecView>,
    pub secrets: Option<Seq<Seq<char>>>,
    pub container: ContainerSpecView,
    pub replication: Option<ReplicationModeView>,
}

impl View for CargoSpec {
    type V = CargoSpecView;

    open spec fn view(&self) -> CargoSpecView {
        CargoSpecView {
            key: self.key,
            cargo_key: self.cargo_key@,
            version: self.version@,
            created_at: self.created_at,
            name: self.name@,
            metadata: opt_str_view(self.metadata),
            init_container: opt_container_view(self.init_container),
            secrets: opt_strs_view(self.secrets),
            container: self.container@,
            replication: opt_replication_view(self.replication),
        }
    }
}

/// The update a partial spec stands for: every field of the partial is
/// present in the update.
pub fn update_of_partial(p: CargoSpecPartial) -> (r: CargoSpecUpdate)
    ensures
        r@.name == Some(p@.name),
        r@.metadata == p@.metadata,
        r@.init_container == p@.init_container,
        r@.secrets == p@.secrets,
        r@.container == Some(p@.container),
        r@.replication == p@.replication,
{
    CargoSpecUpdate {
        name: Some(p.name),
        metadata: p.metadata,
        init_container: p.init_container,
        secrets: p.secrets,
        container: Some(p.container),
        replication: p.replication,
    }
}

/// The partial form of a resolved revision: the identifying fields are
/// dropped, the payload fields carry over.
pub fn partial_of_spec(s: CargoSpec) -> (r: CargoSpecPartial)
    ensures
        r@.name == s@.name,
        r@.metadata == s@.metadata,
        r@.init_container == s@.init_container,
        r@.secrets == s@.secrets,
        r@.container == s@.container,
        r@.replication == s@.replication,
{
    CargoSpecPartial {
        name: s.name,
        metadata: s.metadata,
        init_container: s.init_container,
        secrets: s.secrets,
        container: s.container,
        replication: s.replication,
    }
}

/// The merge of an update over a partial spec, in specification form: every
/// present field of the update replaces the old value, every absent field
/// keeps it.
pub open spec fn spec_merge_cargo(
    old: CargoSpecPartialView,
    up: CargoSpecUpdateView,
) -> CargoSpecPartialView {
    CargoSpecPartialView {
        name: if up.name is Some {
            up.name->0
        } else {
            old.name
        },
        metadata: if up.metadata is Some {
            up.metadata
        } else {
            old.metadata
        },
        init_container: if up.init_container is Some {
            up.init_container
        } else {
            old.init_container
        },
        secrets: if up.secrets is Some {
            up.secrets
        } else {
            old.secrets
        },
        container: if up.container is Some {
            up.container->0
        } else {
            old.container
        },
        replication: if up.replication is Some {
            up.replication
        } else {
            old.replication
        },
    }
}

/// Whether moving a cargo from its current revision to the merged next one
/// touches its containers: it does exactly when a container-bearing field
/// changes, and only then are the containers recreated; otherwise only the
/// `Patched` event is due.
pub fn cargo_needs_recreate(current: &CargoSpec, next: &CargoSpecPartial) -> (r: bool)
    ensures
        r == !(current@.container == next@.container && current@.init_container
            == next@.init_container && current@.secrets == next@.secrets
            && current@.replication == next@.replication),
{
    let same = crate::container::container_spec_eq(&current.container, &next.container)
        && crate::container::opt_container_spec_eq(
        &current.init_container,
        &next.init_container,
    ) && crate::container::opt_string_vec_eq(&current.secrets, &next.secrets)
        && opt_replication_eq(&current.replication, &next.replication);
    !same
}

/// Merge an update over a resolved revision, yielding the partial form of
/// the next revision: every present field of the update replaces the old
/// value, every absent field keeps it.
pub fn merge_update(old: CargoSpec, update: CargoSpecUpdate) -> (r: CargoSpecPartial)
    ensures
        r@.name == if update@.name is Some {
            update@.name->0
        } else {
            old@.name
        },
        r@.metadata == if update@.metadata is Some {
            update@.metadata
        } else {
            old@.metadata
        },
        r@.init_container == if update@.init_container is Some {
            update@.init_container
        } else {
            old@.init_container
        },
        r@.secrets == if update@.secrets is Some {
            update@.secrets
        } else {
            old@.secrets
        },
        r@.container == if update@.container is Some {
            update@.container->0
        } else {
            old@.container
        },
        r@.replication == if update@.replication is Some {
            update@.replication
        } else {
            old@.replication
        },
{
    CargoSpecPartial {
        name: match update.name {
            Some(n) => n,
            None => old.name,
        },
        metadata: match update.metadata {
            Some(m) => Some(m),
            None => old.metadata,
        },
        init_container: match update.init_container {
            Some(c) => Some(c),
            None => old.init_container,
        },
        secrets: match update.secrets {
            Some(s) => Some(s),
            None => old.secrets,
        },
        container: match update.container {
            Some(c) => c,
            None => old.container,
        },
        replication: match update.replication {
            Some(m) => Some(m),
            None => old.replication,
        },
    }
}

} // verus!

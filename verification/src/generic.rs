//! Declarative list filtering shared by every list endpoint, and the small
//! generic query types of the HTTP surface.
//!
//! A filter carries a conjunction of column clauses, an optional disjunction
//! list, a limit, an offset and an ordering.  Discrete clauses (equality,
//! membership, null tests) are given their semantics here; ordered and
//! pattern clauses are resolved by the storage backend, whose query dialect
//! is outside this model.

use vstd::prelude::*;

use crate::container::strs_view;
use crate::err::{ApiError, ErrorKind};

verus! {

/// One clause over a column of a list query.
#[derive(Clone, Debug)]
pub enum GenericClause {
    /// Equal to the value.
    Eq(String),
    /// Not equal to the value.
    Ne(String),
    /// Greater than the value.
    Gt(String),
    /// Less than the value.
    Lt(String),
    /// Greater than or equal to the value.
    Ge(String),
    /// Less than or equal to the value.
    Le(String),
    /// Matches the pattern.
    Like(String),
    /// Does not match the pattern.
    NotLike(String),
    /// Member of the list.
    In(Vec<String>),
    /// Not a member of the list.
    NotIn(Vec<String>),
    /// The column is null.
    IsNull,
    /// The column is not null.
    IsNotNull,
    /// The JSON column contains the value.  The value is carried as its
    /// serialised text; JSON columns are opaque to this model.
    Contains(String),
    /// The JSON column has the key.
    HasKey(String),
}

impl GenericClause {
    /// Whether the clause is decided by this model: equality, membership and
    /// null tests are; ordered, pattern and JSON clauses belong to the
    /// storage backend.
    pub open spec fn spec_decidable(self) -> bool {
        self is Eq || self is Ne || self is In || self is NotIn || self is IsNull
            || self is IsNotNull
    }

    /// Whether a decidable clause holds of a column value, `None` standing
    /// for a null column.
    pub open spec fn spec_matches(self, value: Option<Seq<char>>) -> bool
        recommends
            self.spec_decidable(),
    {
        match self {
            GenericClause::Eq(x) => value == Some(x@),
            GenericClause::Ne(x) => value != Some(x@),
            GenericClause::In(xs) => value is Some && seq_contains_str(
                strs_view(xs),
                value->0,
            ),
            GenericClause::NotIn(xs) => !(value is Some && seq_contains_str(
                strs_view(xs),
                value->0,
            )),
            GenericClause::IsNull => value is None,
            GenericClause::IsNotNull => value is Some,
            _ => false,
        }
    }

    /// Evaluate the clause on a column value.  Returns `None` for a clause
    /// this model delegates to the backend.
    pub fn matches(&self, value: Option<&String>) -> (r: Option<bool>)
        ensures
            r is Some <==> self.spec_decidable(),
            self.spec_decidable() ==> r == Some(
                self.spec_matches(
                    match value {
                        Some(v) => Some(v@),
                        None => None,
                    },
                ),
            ),
    {
        match self {
            GenericClause::Eq(x) => Some(match value {
                Some(v) => x.eq(v),
                None => false,
            }),
            GenericClause::Ne(x) => Some(match value {
                Some(v) => !x.eq(v),
                None => true,
            }),
            GenericClause::In(xs) => Some(match value {
                Some(v) => contains_str(xs, v),
                None => false,
            }),
            GenericClause::NotIn(xs) => Some(match value {
                Some(v) => !contains_str(xs, v),
                None => true,
            }),
            GenericClause::IsNull => Some(match value {
                Some(_) => false,
                None => true,
            }),
            GenericClause::IsNotNull => Some(match value {
                Some(_) => true,
                None => false,
            }),
            GenericClause::Gt(_) => None,
            GenericClause::Lt(_) => None,
            GenericClause::Ge(_) => None,
            GenericClause::Le(_) => None,
            GenericClause::Like(_) => None,
            GenericClause::NotLike(_) => None,
            GenericClause::Contains(_) => None,
            GenericClause::HasKey(_) => None,
        }
    }
}

/// Whether a sequence of strings holds the string.
pub open spec fn seq_contains_str(s: Seq<Seq<char>>, x: Seq<char>) -> bool {
    exists|i: int| 0 <= i < s.len() && s[i] == x
}

/// Whether the list holds the string.
pub fn contains_str(xs: &Vec<String>, v: &String) -> (r: bool)
    ensures
        r == seq_contains_str(strs_view(*xs), v@),
{
    let mut i: usize = 0;
    while i < xs.len()
        invariant
            0 <= i <= xs@.len(),
            forall|j: int| 0 <= j < i ==> strs_view(*xs)[j] != v@,
        decreases xs@.len() - i,
    {
        if xs[i].eq(v) {
            proof {
                assert(strs_view(*xs)[i as int] == v@);
            }
            return true;
        }
        proof {
            assert(strs_view(*xs)[i as int] == xs@[i as int]@);
        }
        i += 1;
    }
    false
}

/// One named condition of a where clause.
#[derive(Clone, Debug)]
pub struct Condition {
    pub key: String,
    pub clause: GenericClause,
}

/// Conjunction of conditions with an optional disjunction list.  Conditions
/// are kept in insertion order; a repeated key shadows the earlier entry, so
/// the last condition with a given key is the one in force.
#[derive(Clone, Debug)]
pub struct GenericWhere {
    pub conditions: Vec<Condition>,
    pub or: Option<Vec<Vec<Condition>>>,
}

/// The clause in force for a key: the last condition that names it.
pub open spec fn spec_lookup(conds: Seq<Condition>, key: Seq<char>) -> Option<GenericClause>
    decreases conds.len(),
{
    if conds.len() == 0 {
        None
    } else if conds.last().key@ == key {
        Some(conds.last().clause)
    } else {
        spec_lookup(conds.drop_last(), key)
    }
}

impl GenericWhere {
    /// An empty conjunction.
    pub fn empty() -> (r: GenericWhere)
        ensures
            r.conditions@.len() == 0,
            r.or is None,
    {
        GenericWhere { conditions: Vec::new(), or: None }
    }
}

/// Generic filter for a list operation.
#[derive(Clone, Debug)]
pub struct GenericFilter {
    /// Where clause.
    pub where_clause: Option<GenericWhere>,
    /// Maximum number of items; the backend defaults to 100 when absent.
    pub limit: Option<usize>,
    /// Offset used to navigate through items.
    pub offset: Option<usize>,
    /// Ordering entries, each a column name with an optional direction.
    pub order_by: Option<Vec<String>>,
}

/// The number of items a filter allows, the default being 100.
pub open spec fn spec_effective_limit(f: GenericFilter) -> usize {
    match f.limit {
        Some(l) => l,
        None => 100usize,
    }
}

impl GenericFilter {
    /// An empty filter.
    pub fn new() -> (r: GenericFilter)
        ensures
            r.where_clause is None,
            r.limit is None,
            r.offset is None,
            r.order_by is None,
    {
        GenericFilter { where_clause: None, limit: None, offset: None, order_by: None }
    }

    /// Set the limit.
    pub fn limit(self, limit: usize) -> (r: GenericFilter)
        ensures
            r.limit == Some(limit),
            r.where_clause == self.where_clause,
            r.offset == self.offset,
            r.order_by == self.order_by,
    {
        GenericFilter { limit: Some(limit), ..self }
    }

    /// Set the offset.
    pub fn offset(self, offset: usize) -> (r: GenericFilter)
        ensures
            r.offset == Some(offset),
            r.where_clause == self.where_clause,
            r.limit == self.limit,
            r.order_by == self.order_by,
    {
        GenericFilter { offset: Some(offset), ..self }
    }

    /// Add a condition to the where clause, creating the clause when absent.
    /// The new condition is appended and shadows any earlier condition with
    /// the same key.
    pub fn and_where(self, key: &str, clause: GenericClause) -> (r: GenericFilter)
        ensures
            r.where_clause is Some,
            r.where_clause->0.conditions@.len() > 0,
            r.where_clause->0.conditions@.last().key@ == key@,
            r.where_clause->0.conditions@.last().clause == clause,
            spec_lookup(r.where_clause->0.conditions@, key@) == Some(clause),
            self.where_clause is Some ==> (r.where_clause->0.conditions@.drop_last()
                == self.where_clause->0.conditions@ && r.where_clause->0.or
                == self.where_clause->0.or),
            self.where_clause is None ==> r.where_clause->0.conditions@.len() == 1,
            r.limit == self.limit,
            r.offset == self.offset,
            r.order_by == self.order_by,
    {
        let mut cur = match self.where_clause {
            Some(w) => w,
            None => GenericWhere::empty(),
        };
        cur.conditions.push(Condition { key: key.to_owned(), clause });
        GenericFilter { where_clause: Some(cur), ..self }
    }
}

impl Default for GenericFilter {
    /// The empty filter.
    fn default() -> (r: GenericFilter)
        ensures
            r.where_clause is None,
            r.limit is None,
            r.offset is None,
            r.order_by is None,
    {
        GenericFilter::new()
    }
}

/// Generic namespace query filter.
#[derive(Clone, Debug)]
pub struct GenericNspQuery {
    /// Name of the namespace.
    pub namespace: Option<String>,
}

impl GenericNspQuery {
    /// Create a new query with an optional namespace.
    pub fn new(namespace: Option<&str>) -> (r: GenericNspQuery)
        ensures
            r.namespace is Some <==> namespace is Some,
            namespace is Some ==> r.namespace->0@ == namespace->0@,
    {
        GenericNspQuery {
            namespace: match namespace {
                Some(s) => Some(s.to_owned()),
                None => None,
            },
        }
    }
}

/// Generic count response.
#[derive(Clone, Copy, Debug)]
pub struct GenericCount {
    /// Number of items.
    pub count: i64,
}

/// Direction of an ordering entry.
#[derive(Clone, Copy, Debug, PartialEq, Eq, Structural)]
pub enum GenericOrder {
    /// Ascending.
    Asc,
    /// Descending.
    Desc,
}

impl GenericOrder {
    /// Parse the wire form of a direction: exactly `asc` or `desc`.
    pub fn from_str(s: &str) -> (r: Result<GenericOrder, ApiError>)
        ensures
            s@ == "asc"@ ==> r == Result::<GenericOrder, ApiError>::Ok(GenericOrder::Asc),
            s@ == "desc"@ ==> r == Result::<GenericOrder, ApiError>::Ok(GenericOrder::Desc),
            s@ != "asc"@ && s@ != "desc"@ ==> r is Err && r->Err_0.kind
                == ErrorKind::Validation,
    {
        proof {
            reveal_strlit("asc");
            reveal_strlit("desc");
            assert("asc"@.len() == 3);
            assert("desc"@.len() == 4);
            assert("asc"@ != "desc"@);
        }
        if str_eq(s, "asc") {
            Ok(GenericOrder::Asc)
        } else if str_eq(s, "desc") {
            Ok(GenericOrder::Desc)
        } else {
            Err(ApiError::new(ErrorKind::Validation, String::from_str("Invalid order")))
        }
    }
}

/// Whether two string slices hold the same characters.
pub fn str_eq(a: &str, b: &str) -> (r: bool)
    ensures
        r == (a@ == b@),
{
    let a_owned = a.to_owned();
    let b_owned = b.to_owned();
    a_owned == b_owned
}

/// Generic query string parameters for list operations.  The filter rides as
/// its serialised text.
#[derive(Clone, Debug)]
pub struct GenericListQuery {
    /// A generic filter as serialised text.
    pub filter: Option<String>,
}

/// Generic query string parameters for list operations that include a
/// namespace.
#[derive(Clone, Debug)]
pub struct GenericListQueryNsp {
    /// A generic filter as serialised text.
    pub filter: Option<String>,
    pub namespace: Option<String>,
}

impl GenericListQueryNsp {
    /// Create a new query against an optional namespace.
    pub fn new(namespace: Option<&str>) -> (r: GenericListQueryNsp)
        ensures
            r.filter is None,
            r.namespace is Some <==> namespace is Some,
            namespace is Some ==> r.namespace->0@ == namespace->0@,
    {
        GenericListQueryNsp {
            filter: None,
            namespace: match namespace {
                Some(s) => Some(s.to_owned()),
                None => None,
            },
        }
    }

    /// Replace the namespace of the query.
    pub fn with_namespace(self, namespace: Option<&str>) -> (r: GenericListQueryNsp)
        ensures
            r.filter == self.filter,
            r.namespace is Some <==> namespace is Some,
            namespace is Some ==> r.namespace->0@ == namespace->0@,
    {
        GenericListQueryNsp {
            filter: self.filter,
            namespace: match namespace {
                Some(s) => Some(s.to_owned()),
                None => None,
            },
        }
    }
}

/// A filter paired with an optional namespace, the structured twin of
/// [`GenericListQueryNsp`].
#[derive(Clone, Debug)]
pub struct GenericFilterNsp {
    pub filter: Option<GenericFilter>,
    pub namespace: Option<String>,
}

/// Policy for pulling images related to process objects.
#[derive(Clone, Copy, Debug, PartialEq, Eq, Structural)]
pub enum ImagePullPolicy {
    /// Never pull the image; it must be loaded beforehand.
    Never,
    /// Always pull the image before starting.
    Always,
    /// Pull the image only when it is absent from the node.
    IfNotPresent,
}

impl Default for ImagePullPolicy {
    /// Pull only when absent.
    fn default() -> (r: ImagePullPolicy)
        ensures
            r == ImagePullPolicy::IfNotPresent,
    {
        ImagePullPolicy::IfNotPresent
    }
}

/// Network binding kinds.  A specific address is carried as its text.
#[derive(Clone, Debug, PartialEq, Eq)]
pub enum NetworkKind {
    /// All networks.
    All,
    /// Loopback only.
    Local,
    /// Public addresses only.
    Public,
    /// Internal addresses only.
    Internal,
    /// A specific address.
    Other(String),
}

impl NetworkKind {
    /// Display form of the kind.
    pub fn to_text(&self) -> (r: String)
        ensures
            (self is All) ==> r@ == "All"@,
            (self is Local) ==> r@ == "Local"@,
            (self is Public) ==> r@ == "Public"@,
            (self is Internal) ==> r@ == "Internal"@,
            (self is Other) ==> r@ == "Ip("@ + self->0@ + ")"@,
    {
        match self {
            NetworkKind::All => String::from_str("All"),
            NetworkKind::Local => String::from_str("Local"),
            NetworkKind::Public => String::from_str("Public"),
            NetworkKind::Internal => String::from_str("Internal"),
            NetworkKind::Other(ip) => {
                let mut s = String::from_str("Ip(");
                s.append(ip.as_str());
                s.append(")");
                s
            },
        }
    }
}

/// Names the empty object shape in the wire schema.
#[derive(Clone, Copy, Debug)]
pub struct EmptyObject;

/// Names the runtime resource description shape in the wire schema.
#[derive(Clone, Copy, Debug)]
pub struct GenericResources;

/// Names the runtime date text shape in the wire schema.
#[derive(Clone, Copy, Debug)]
pub struct BollardDate;

/// Names the port mapping shape in the wire schema.
#[derive(Clone, Copy, Debug)]
pub struct PortMap;

} // verus!

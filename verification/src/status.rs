//! Lifecycle status of a managed object: the pair `(wanted, actual)` with the
//! previous pair kept so a failing transition can restore the earlier intent.

use vstd::prelude::*;

verus! {

/// A lifecycle state, stored for both the wanted and the observed side.
#[derive(Clone, Copy, Debug, PartialEq, Eq, Structural)]
pub enum ObjPsStatusKind {
    Created,
    Starting,
    Running,
    Stopping,
    Stopped,
    Failed,
    Unknown,
}

impl ObjPsStatusKind {
    /// Wire name of the state, as it appears in persisted rows.
    pub fn to_str(&self) -> (r: &'static str)
        ensures
            r@ == self.spec_str(),
    {
        proof {
            reveal_strlit("Created");
            reveal_strlit("Starting");
            reveal_strlit("Running");
            reveal_strlit("Stopping");
            reveal_strlit("Stopped");
            reveal_strlit("Failed");
            reveal_strlit("Unknown");
        }
        match self {
            ObjPsStatusKind::Created => "Created",
            ObjPsStatusKind::Starting => "Starting",
            ObjPsStatusKind::Running => "Running",
            ObjPsStatusKind::Stopping => "Stopping",
            ObjPsStatusKind::Stopped => "Stopped",
            ObjPsStatusKind::Failed => "Failed",
            ObjPsStatusKind::Unknown => "Unknown",
        }
    }

    /// The wire name in specification form.
    pub open spec fn spec_str(self) -> Seq<char> {
        match self {
            ObjPsStatusKind::Created => "Created"@,
            ObjPsStatusKind::Starting => "Starting"@,
            ObjPsStatusKind::Running => "Running"@,
            ObjPsStatusKind::Stopping => "Stopping"@,
            ObjPsStatusKind::Stopped => "Stopped"@,
            ObjPsStatusKind::Failed => "Failed"@,
            ObjPsStatusKind::Unknown => "Unknown"@,
        }
    }
}

/// Status row of one object: current intent and observation, with the
/// previous values of both.
#[derive(Clone, Copy, Debug, PartialEq, Eq, Structural)]
pub struct ObjPsStatus {
    pub wanted: ObjPsStatusKind,
    pub prev_wanted: ObjPsStatusKind,
    pub actual: ObjPsStatusKind,
    pub prev_actual: ObjPsStatusKind,
}

/// Partial update of a status row: absent fields keep their old value.
#[derive(Clone, Copy, Debug)]
pub struct ObjPsStatusUpdate {
    pub wanted: Option<ObjPsStatusKind>,
    pub prev_wanted: Option<ObjPsStatusKind>,
    pub actual: Option<ObjPsStatusKind>,
    pub prev_actual: Option<ObjPsStatusKind>,
}

impl ObjPsStatus {
    /// Status of a freshly created object: everything at `Created`.
    pub fn new_created() -> (r: ObjPsStatus)
        ensures
            r == (ObjPsStatus {
                wanted: ObjPsStatusKind::Created,
                prev_wanted: ObjPsStatusKind::Created,
                actual: ObjPsStatusKind::Created,
                prev_actual: ObjPsStatusKind::Created,
            }),
    {
        ObjPsStatus {
            wanted: ObjPsStatusKind::Created,
            prev_wanted: ObjPsStatusKind::Created,
            actual: ObjPsStatusKind::Created,
            prev_actual: ObjPsStatusKind::Created,
        }
    }

    /// Effect of a partial update in specification form.
    pub open spec fn spec_apply(self, up: ObjPsStatusUpdate) -> ObjPsStatus {
        ObjPsStatus {
            wanted: if up.wanted is Some { up.wanted->0 } else { self.wanted },
            prev_wanted: if up.prev_wanted is Some { up.prev_wanted->0 } else { self.prev_wanted },
            actual: if up.actual is Some { up.actual->0 } else { self.actual },
            prev_actual: if up.prev_actual is Some { up.prev_actual->0 } else { self.prev_actual },
        }
    }

    /// Apply a partial update: every present field replaces the old value,
    /// every absent field keeps it.
    pub fn apply(&self, up: &ObjPsStatusUpdate) -> (r: ObjPsStatus)
        ensures
            r == self.spec_apply(*up),
    {
        ObjPsStatus {
            wanted: match up.wanted {
                Some(w) => w,
                None => self.wanted,
            },
            prev_wanted: match up.prev_wanted {
                Some(w) => w,
                None => self.prev_wanted,
            },
            actual: match up.actual {
                Some(a) => a,
                None => self.actual,
            },
            prev_actual: match up.prev_actual {
                Some(a) => a,
                None => self.prev_actual,
            },
        }
    }
}

/// The status update written when a start is requested, provided the object
/// is not already running: intent moves to `Running`, observation to
/// `Starting`, and both previous fields record the state before the call.
pub fn start_status_update(current: &ObjPsStatus) -> (r: ObjPsStatusUpdate)
    requires
        current.actual != ObjPsStatusKind::Running,
    ensures
        r.wanted == Some(ObjPsStatusKind::Running),
        r.prev_wanted == Some(current.wanted),
        r.actual == Some(ObjPsStatusKind::Starting),
        r.prev_actual == Some(current.actual),
        current.spec_apply(r) == (ObjPsStatus {
            wanted: ObjPsStatusKind::Running,
            prev_wanted: current.wanted,
            actual: ObjPsStatusKind::Starting,
            prev_actual: current.actual,
        }),
{
    ObjPsStatusUpdate {
        wanted: Some(ObjPsStatusKind::Running),
        prev_wanted: Some(current.wanted),
        actual: Some(ObjPsStatusKind::Starting),
        prev_actual: Some(current.actual),
    }
}

} // verus!

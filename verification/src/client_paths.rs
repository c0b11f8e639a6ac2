//! Paths of the daemon's HTTP surface, as the client composes them.  The
//! client's transport lives at the edge; what it sends is decided here.

use vstd::prelude::*;

verus! {

/// The root of the process endpoints.
pub open spec fn spec_process_root() -> Seq<char> {
    "/processes"@
}

/// The path listing every process.
pub fn process_list_path() -> (r: String)
    ensures
        r@ == spec_process_root(),
{
    String::from_str("/processes")
}

/// The path streaming the log of one process instance.
pub fn process_logs_path(name: &str) -> (r: String)
    ensures
        r@ == spec_process_root() + "/"@ + name@ + "/logs"@,
{
    let mut s = String::from_str("/processes/");
    s.append(name);
    s.append("/logs");
    proof {
        reveal_strlit("/processes");
        reveal_strlit("/processes/");
        reveal_strlit("/");
        assert(s@ =~= spec_process_root() + "/"@ + name@ + "/logs"@);
    }
    s
}

/// The path streaming the logs of every instance of an object.
pub fn processes_logs_path(kind: &str, name: &str) -> (r: String)
    ensures
        r@ == spec_process_root() + "/"@ + kind@ + "/"@ + name@ + "/logs"@,
{
    let mut s = String::from_str("/processes/");
    s.append(kind);
    s.append("/");
    s.append(name);
    s.append("/logs");
    proof {
        reveal_strlit("/processes");
        reveal_strlit("/processes/");
        reveal_strlit("/");
        assert(s@ =~= spec_process_root() + "/"@ + kind@ + "/"@ + name@ + "/logs"@);
    }
    s
}

/// The path of one lifecycle action on an object: start, stop, restart or
/// kill, given as the action segment.
pub fn process_action_path(kind: &str, name: &str, action: &str) -> (r: String)
    ensures
        r@ == spec_process_root() + "/"@ + kind@ + "/"@ + name@ + "/"@ + action@,
{
    let mut s = String::from_str("/processes/");
    s.append(kind);
    s.append("/");
    s.append(name);
    s.append("/");
    s.append(action);
    proof {
        reveal_strlit("/processes");
        reveal_strlit("/processes/");
        reveal_strlit("/");
        assert(s@ =~= spec_process_root() + "/"@ + kind@ + "/"@ + name@ + "/"@ + action@);
    }
    s
}

/// The path inspecting one process.
pub fn process_inspect_path(name: &str) -> (r: String)
    ensures
        r@ == spec_process_root() + "/"@ + name@ + "/inspect"@,
{
    let mut s = String::from_str("/processes/");
    s.append(name);
    s.append("/inspect");
    proof {
        reveal_strlit("/processes");
        reveal_strlit("/processes/");
        reveal_strlit("/");
        assert(s@ =~= spec_process_root() + "/"@ + name@ + "/inspect"@);
    }
    s
}

/// The root of the secret endpoints.
pub open spec fn spec_secret_root() -> Seq<char> {
    "/secrets"@
}

/// The path listing or creating secrets.
pub fn secret_root_path() -> (r: String)
    ensures
        r@ == spec_secret_root(),
{
    String::from_str("/secrets")
}

/// The path inspecting one secret.
pub fn secret_inspect_path(key: &str) -> (r: String)
    ensures
        r@ == spec_secret_root() + "/"@ + key@ + "/inspect"@,
{
    let mut s = String::from_str("/secrets/");
    s.append(key);
    s.append("/inspect");
    proof {
        reveal_strlit("/secrets");
        reveal_strlit("/secrets/");
        reveal_strlit("/");
        assert(s@ =~= spec_secret_root() + "/"@ + key@ + "/inspect"@);
    }
    s
}

/// The path deleting one secret.
pub fn secret_delete_path(key: &str) -> (r: String)
    ensures
        r@ == spec_secret_root() + "/"@ + key@,
{
    let mut s = String::from_str("/secrets/");
    s.append(key);
    proof {
        reveal_strlit("/secrets");
        reveal_strlit("/secrets/");
        reveal_strlit("/");
        assert(s@ =~= spec_secret_root() + "/"@ + key@);
    }
    s
}

} // verus!

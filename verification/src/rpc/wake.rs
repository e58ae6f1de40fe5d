//! Requests on wake sources.

use super::{fails, rpc_err, RpcFault};
use crate::pieces::{has_text, occurs};
use crate::text::{cat, opt_text, own, same};
use crate::wake_registry::{kind_name, WakeSourceKind};
use vstd::prelude::*;
use vstd::string::*;

verus! {

/// A wake source that is to be registered.
#[derive(Debug)]
pub struct WakeAdd {
    pub kind: WakeSourceKind,
    /// What the configuration's root has to be, where it has one: the agent's
    /// directory, whatever the client sent.
    pub root: Option<String>,
}

/// The kind with a name.
fn kind_named(name: &str) -> (r: Option<WakeSourceKind>)
    ensures
        match r {
            Some(k) => kind_name(k) == name@,
            None => forall|k: WakeSourceKind| #[trigger] kind_name(k) != name@,
        },
{
    if same(name, "cron") {
        Some(WakeSourceKind::Cron)
    } else if same(name, "file_watch") {
        Some(WakeSourceKind::FileWatch)
    } else if same(name, "parent_completion") {
        Some(WakeSourceKind::ParentCompletion)
    } else {
        None
    }
}

/// Checks a wake source, where `agent_cwd` is the directory of its agent, if
/// there is such an agent.
pub fn handle_wake_add(agent_cwd: Option<&str>, kind: &str) -> (r: Result<WakeAdd, RpcFault>)
    ensures
        match agent_cwd {
            None => r matches Err(e) && fails(e, "agent_not_found"@),
            Some(cwd) => match r {
                Ok(a) => {
                    &&& kind_name(a.kind) == kind@
                    &&& opt_text(a.root) == (if a.kind == WakeSourceKind::FileWatch {
                        Some(cwd@)
                    } else {
                        None
                    })
                },
                Err(e) => {
                    &&& forall|k: WakeSourceKind| #[trigger] kind_name(k) != kind@
                    &&& fails(e, "invalid_kind"@)
                },
            },
        },
{
    let cwd = match agent_cwd {
        None => return Err(rpc_err("agent_not_found")),
        Some(c) => c,
    };
    match kind_named(kind) {
        None => Err(rpc_err("invalid_kind")),
        Some(kind) => {
            let root: Option<String> = if kind == WakeSourceKind::FileWatch {
                Some(own(cwd))
            } else {
                None
            };
            Ok(WakeAdd { kind, root })
        },
    }
}

/// What the removal of a wake source comes to.
pub fn handle_wake_remove(removed: Result<bool, &str>) -> (r: Result<(), RpcFault>)
    ensures
        match removed {
            Ok(true) => r is Ok,
            Ok(false) => r matches Err(e) && fails(e, "wake_not_found"@),
            Err(why) => r matches Err(e) && fails(e, "remove: "@ + why@),
        },
{
    match removed {
        Ok(true) => Ok(()),
        Ok(false) => Err(rpc_err("wake_not_found")),
        Err(why) => Err(rpc_err(cat("remove: ", why).as_str())),
    }
}

/// The fault of a test fire that failed.
pub fn wake_test_fault(error: &str) -> (f: RpcFault)
    ensures
        fails(
            f,
            if occurs(error@, "wake_not_found"@) {
                "wake_not_found"@
            } else {
                error@
            },
        ),
{
    if has_text(error, "wake_not_found") {
        rpc_err("wake_not_found")
    } else {
        rpc_err(error)
    }
}

// ---------------------------------------------------------------------------
// Laws
// ---------------------------------------------------------------------------

/// A removed source is answered with success, and one that is not there or
/// could not be removed with what went wrong.
pub proof fn removals_are_answered(removed: Result<bool, &str>, r: Result<(), RpcFault>)
    requires
        call_ensures(handle_wake_remove, (removed,), r),
    ensures
        r is Ok <==> (removed matches Ok(done) && done),
        removed matches Ok(done) ==> !done ==> fails(r->Err_0, "wake_not_found"@),
        removed matches Err(why) ==> fails(r->Err_0, "remove: "@ + why@),
{
}

/// A source that watches files watches its agent's directory; no other has a
/// root.
pub proof fn watches_are_of_the_agents_directory(
    cwd: Option<&str>,
    kind: &str,
    r: Result<WakeAdd, RpcFault>,
)
    requires
        call_ensures(handle_wake_add, (cwd, kind), r),
    ensures
        cwd is None ==> (r matches Err(e) && fails(e, "agent_not_found"@)),
        r matches Ok(a) ==> kind_name(a.kind) == kind@ && (a.kind == WakeSourceKind::FileWatch
            ==> opt_text(a.root) == Some(cwd->0@)) && (a.kind != WakeSourceKind::FileWatch ==> a.root
            is None),
        cwd is Some && r is Err ==> fails(r->Err_0, "invalid_kind"@),
{
}

/// A test of a source that is not there says so, and any other failure says
/// what it is.
pub proof fn failed_tests_say_why(error: &str, f: RpcFault)
    requires
        call_ensures(wake_test_fault, (error,), f),
    ensures
        occurs(error@, "wake_not_found"@) ==> f.message@ == "wake_not_found"@,
        !occurs(error@, "wake_not_found"@) ==> f.message@ == error@,
{
}

} // verus!

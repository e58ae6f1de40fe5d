//! What each request to the daemon comes to: the method that it names, the
//! checks on its parameters, and the reply.

use crate::text::{cat, own, same};
use vstd::prelude::*;
use vstd::string::*;

pub mod agents;
pub mod federation;
pub mod mail;
pub mod mail_laws;
pub mod misc;
pub mod scrolls;
pub mod supervision;
pub mod wake;
pub mod workspace;

verus! {

/// A request that the daemon could not carry out.
pub const SERVER_ERROR: i64 = -32000;

/// A method that the daemon does not have.
pub const METHOD_NOT_FOUND: i64 = -32601;

/// Parameters that do not fit the method.
pub const INVALID_PARAMS: i64 = -32602;

/// A line that is no request.
pub const PARSE_ERROR: i64 = -32700;

/// Why a request was not carried out.
#[derive(Debug)]
pub struct RpcFault {
    pub code: i64,
    pub message: String,
}

/// Whether a fault says that.
pub open spec fn faults(f: RpcFault, code: i64, message: Seq<char>) -> bool {
    f.code == code && f.message@ == message
}

/// Whether a fault is of the daemon, with that message.
pub open spec fn fails(f: RpcFault, message: Seq<char>) -> bool {
    faults(f, SERVER_ERROR, message)
}

/// A fault of the daemon, with a code in words.
pub fn rpc_err(message: &str) -> (f: RpcFault)
    ensures
        fails(f, message@),
{
    RpcFault { code: SERVER_ERROR, message: own(message) }
}

/// A fault of the daemon, from an action that failed.
pub fn rpc_fail(action: &str, error: &str) -> (f: RpcFault)
    ensures
        fails(f, "Failed to "@ + action@ + ": "@ + error@),
{
    let mut message = cat("Failed to ", action);
    message.append(": ");
    message.append(error);
    RpcFault { code: SERVER_ERROR, message }
}

/// Parameters that do not parse.
pub fn invalid_params(error: &str) -> (f: RpcFault)
    ensures
        faults(f, INVALID_PARAMS, "Invalid params: "@ + error@),
{
    RpcFault { code: INVALID_PARAMS, message: cat("Invalid params: ", error) }
}

// ---------------------------------------------------------------------------
// Dispatch
// ---------------------------------------------------------------------------

/// The version of the protocol. A request that names none is of this version.
pub const RPC_PROTOCOL_VERSION: u32 = 1;

/// The methods of the daemon.
#[derive(Clone, Copy, Debug, PartialEq, Eq, Structural)]
pub enum Method {
    AgentSummon,
    AgentCircle,
    AgentBanish,
    AgentInvoke,
    PactCreate,
    PactList,
    ScrollInscribe,
    ScrollActivate,
    ScrollStatus,
    ScrollList,
    ScrollAbandon,
    ScrollApprove,
    ScrollReject,
    DaemonStatus,
    AgentQueueList,
    AgentProcesses,
    AgentSupervisorTree,
    SupervisorRestartNow,
    SupervisorClearEscalation,
    SupervisorHistory,
    AgentResult,
    AgentArtifact,
    BudgetList,
    EvalRecord,
    EvalList,
    EvalScores,
    MailSend,
    MailAsk,
    MailTender,
    MailList,
    MailAck,
    MailSubscribe,
    MailUnsubscribe,
    MailTopics,
    WakeAdd,
    WakeList,
    WakeRemove,
    WakeTest,
    WorkspaceCreate,
    WorkspaceList,
    WorkspaceDestroy,
    WorkspaceAssign,
    WorkspaceFederate,
    WorkspaceFederateSubscribe,
    WorkspaceUnfederate,
    AgentLifecycleFederate,
    AgentLifecycleUnfederate,
    PeerSetAcceptDispatch,
    ScrollDispatchTask,
    MemoryPut,
    MemoryGet,
    MemoryList,
    MemoryDelete,
    NsPut,
    NsGet,
    NsList,
    NsDelete,
    NsFederate,
    NsUnfederate,
    PeerAdd,
    PeerLocalCert,
    PeerList,
    PeerRemove,
    PeerPing,
    TopicFederate,
    TopicUnfederate,
    TopicFederations,
    NsFederations,
    WorkspaceFederations,
    Notify,
    AgentReplay,
}

/// The name of a method.
pub open spec fn method_name(m: Method) -> Seq<char> {
    match m {
        Method::AgentSummon => "agent.summon"@,
        Method::AgentCircle => "agent.circle"@,
        Method::AgentBanish => "agent.banish"@,
        Method::AgentInvoke => "agent.invoke"@,
        Method::PactCreate => "pact.create"@,
        Method::PactList => "pact.list"@,
        Method::ScrollInscribe => "scroll.inscribe"@,
        Method::ScrollActivate => "scroll.activate"@,
        Method::ScrollStatus => "scroll.status"@,
        Method::ScrollList => "scroll.list"@,
        Method::ScrollAbandon => "scroll.abandon"@,
        Method::ScrollApprove => "scroll.approve"@,
        Method::ScrollReject => "scroll.reject"@,
        Method::DaemonStatus => "daemon.status"@,
        Method::AgentQueueList => "agent.queue.list"@,
        Method::AgentProcesses => "agent.processes"@,
        Method::AgentSupervisorTree => "agent.supervisor-tree"@,
        Method::SupervisorRestartNow => "supervisor.restart-now"@,
        Method::SupervisorClearEscalation => "supervisor.clear-escalation"@,
        Method::SupervisorHistory => "supervisor.history"@,
        Method::AgentResult => "agent.result"@,
        Method::AgentArtifact => "agent.artifact"@,
        Method::BudgetList => "budget.list"@,
        Method::EvalRecord => "eval.record"@,
        Method::EvalList => "eval.list"@,
        Method::EvalScores => "eval.scores"@,
        Method::MailSend => "mail.send"@,
        Method::MailAsk => "mail.ask"@,
        Method::MailTender => "mail.tender"@,
        Method::MailList => "mail.list"@,
        Method::MailAck => "mail.ack"@,
        Method::MailSubscribe => "mail.subscribe"@,
        Method::MailUnsubscribe => "mail.unsubscribe"@,
        Method::MailTopics => "mail.topics"@,
        Method::WakeAdd => "wake.add"@,
        Method::WakeList => "wake.list"@,
        Method::WakeRemove => "wake.remove"@,
        Method::WakeTest => "wake.test"@,
        Method::WorkspaceCreate => "workspace.create"@,
        Method::WorkspaceList => "workspace.list"@,
        Method::WorkspaceDestroy => "workspace.destroy"@,
        Method::WorkspaceAssign => "workspace.assign"@,
        Method::WorkspaceFederate => "workspace.federate"@,
        Method::WorkspaceFederateSubscribe => "workspace.federate-subscribe"@,
        Method::WorkspaceUnfederate => "workspace.unfederate"@,
        Method::AgentLifecycleFederate => "agent.lifecycle-federate"@,
        Method::AgentLifecycleUnfederate => "agent.lifecycle-unfederate"@,
        Method::PeerSetAcceptDispatch => "peer.set-accept-dispatch"@,
        Method::ScrollDispatchTask => "scroll.dispatch-task"@,
        Method::MemoryPut => "memory.put"@,
        Method::MemoryGet => "memory.get"@,
        Method::MemoryList => "memory.list"@,
        Method::MemoryDelete => "memory.delete"@,
        Method::NsPut => "ns.put"@,
        Method::NsGet => "ns.get"@,
        Method::NsList => "ns.list"@,
        Method::NsDelete => "ns.delete"@,
        Method::NsFederate => "ns.federate"@,
        Method::NsUnfederate => "ns.unfederate"@,
        Method::PeerAdd => "peer.add"@,
        Method::PeerLocalCert => "peer.local-cert"@,
        Method::PeerList => "peer.list"@,
        Method::PeerRemove => "peer.remove"@,
        Method::PeerPing => "peer.ping"@,
        Method::TopicFederate => "topic.federate"@,
        Method::TopicUnfederate => "topic.unfederate"@,
        Method::TopicFederations => "topic.federations"@,
        Method::NsFederations => "ns.federations"@,
        Method::WorkspaceFederations => "workspace.federations"@,
        Method::Notify => "notify"@,
        Method::AgentReplay => "agent.replay"@,
    }
}

/// The method with a name.
fn method_named(name: &str) -> (r: Option<Method>)
    ensures
        match r {
            Some(m) => method_name(m) == name@,
            None => forall|m: Method| #[trigger] method_name(m) != name@,
        },
{
    if same(name, "agent.summon") {
        return Some(Method::AgentSummon);
    }
    if same(name, "agent.circle") {
        return Some(Method::AgentCircle);
    }
    if same(name, "agent.banish") {
        return Some(Method::AgentBanish);
    }
    if same(name, "agent.invoke") {
        return Some(Method::AgentInvoke);
    }
    if same(name, "pact.create") {
        return Some(Method::PactCreate);
    }
    if same(name, "pact.list") {
        return Some(Method::PactList);
    }
    if same(name, "scroll.inscribe") {
        return Some(Method::ScrollInscribe);
    }
    if same(name, "scroll.activate") {
        return Some(Method::ScrollActivate);
    }
    if same(name, "scroll.status") {
        return Some(Method::ScrollStatus);
    }
    if same(name, "scroll.list") {
        return Some(Method::ScrollList);
    }
    if same(name, "scroll.abandon") {
        return Some(Method::ScrollAbandon);
    }
    if same(name, "scroll.approve") {
        return Some(Method::ScrollApprove);
    }
    if same(name, "scroll.reject") {
        return Some(Method::ScrollReject);
    }
    if same(name, "daemon.status") {
        return Some(Method::DaemonStatus);
    }
    if same(name, "agent.queue.list") {
        return Some(Method::AgentQueueList);
    }
    if same(name, "agent.processes") {
        return Some(Method::AgentProcesses);
    }
    if same(name, "agent.supervisor-tree") {
        return Some(Method::AgentSupervisorTree);
    }
    if same(name, "supervisor.restart-now") {
        return Some(Method::SupervisorRestartNow);
    }
    if same(name, "supervisor.clear-escalation") {
        return Some(Method::SupervisorClearEscalation);
    }
    if same(name, "supervisor.history") {
        return Some(Method::SupervisorHistory);
    }
    if same(name, "agent.result") {
        return Some(Method::AgentResult);
    }
    if same(name, "agent.artifact") {
        return Some(Method::AgentArtifact);
    }
    if same(name, "budget.list") {
        return Some(Method::BudgetList);
    }
    if same(name, "eval.record") {
        return Some(Method::EvalRecord);
    }
    if same(name, "eval.list") {
        return Some(Method::EvalList);
    }
    if same(name, "eval.scores") {
        return Some(Method::EvalScores);
    }
    if same(name, "mail.send") {
        return Some(Method::MailSend);
    }
    if same(name, "mail.ask") {
        return Some(Method::MailAsk);
    }
    if same(name, "mail.tender") {
        return Some(Method::MailTender);
    }
    if same(name, "mail.list") {
        return Some(Method::MailList);
    }
    if same(name, "mail.ack") {
        return Some(Method::MailAck);
    }
    if same(name, "mail.subscribe") {
        return Some(Method::MailSubscribe);
    }
    if same(name, "mail.unsubscribe") {
        return Some(Method::MailUnsubscribe);
    }
    if same(name, "mail.topics") {
        return Some(Method::MailTopics);
    }
    if same(name, "wake.add") {
        return Some(Method::WakeAdd);
    }
    if same(name, "wake.list") {
        return Some(Method::WakeList);
    }
    if same(name, "wake.remove") {
        return Some(Method::WakeRemove);
    }
    if same(name, "wake.test") {
        return Some(Method::WakeTest);
    }
    if same(name, "workspace.create") {
        return Some(Method::WorkspaceCreate);
    }
    if same(name, "workspace.list") {
        return Some(Method::WorkspaceList);
    }
    if same(name, "workspace.destroy") {
        return Some(Method::WorkspaceDestroy);
    }
    if same(name, "workspace.assign") {
        return Some(Method::WorkspaceAssign);
    }
    if same(name, "workspace.federate") {
        return Some(Method::WorkspaceFederate);
    }
    if same(name, "workspace.federate-subscribe") {
        return Some(Method::WorkspaceFederateSubscribe);
    }
    if same(name, "workspace.unfederate") {
        return Some(Method::WorkspaceUnfederate);
    }
    if same(name, "agent.lifecycle-federate") {
        return Some(Method::AgentLifecycleFederate);
    }
    if same(name, "agent.lifecycle-unfederate") {
        return Some(Method::AgentLifecycleUnfederate);
    }
    if same(name, "peer.set-accept-dispatch") {
        return Some(Method::PeerSetAcceptDispatch);
    }
    if same(name, "scroll.dispatch-task") {
        return Some(Method::ScrollDispatchTask);
    }
    if same(name, "memory.put") {
        return Some(Method::MemoryPut);
    }
    if same(name, "memory.get") {
        return Some(Method::MemoryGet);
    }
    if same(name, "memory.list") {
        return Some(Method::MemoryList);
    }
    if same(name, "memory.delete") {
        return Some(Method::MemoryDelete);
    }
    if same(name, "ns.put") {
        return Some(Method::NsPut);
    }
    if same(name, "ns.get") {
        return Some(Method::NsGet);
    }
    if same(name, "ns.list") {
        return Some(Method::NsList);
    }
    if same(name, "ns.delete") {
        return Some(Method::NsDelete);
    }
    if same(name, "ns.federate") {
        return Some(Method::NsFederate);
    }
    if same(name, "ns.unfederate") {
        return Some(Method::NsUnfederate);
    }
    if same(name, "peer.add") {
        return Some(Method::PeerAdd);
    }
    if same(name, "peer.local-cert") {
        return Some(Method::PeerLocalCert);
    }
    if same(name, "peer.list") {
        return Some(Method::PeerList);
    }
    if same(name, "peer.remove") {
        return Some(Method::PeerRemove);
    }
    if same(name, "peer.ping") {
        return Some(Method::PeerPing);
    }
    if same(name, "topic.federate") {
        return Some(Method::TopicFederate);
    }
    if same(name, "topic.unfederate") {
        return Some(Method::TopicUnfederate);
    }
    if same(name, "topic.federations") {
        return Some(Method::TopicFederations);
    }
    if same(name, "ns.federations") {
        return Some(Method::NsFederations);
    }
    if same(name, "workspace.federations") {
        return Some(Method::WorkspaceFederations);
    }
    if same(name, "notify") {
        return Some(Method::Notify);
    }
    if same(name, "agent.replay") {
        return Some(Method::AgentReplay);
    }
    None
}

/// Which method a request calls.
pub fn handle_rpc(protocol_version: Option<u32>, method: &str) -> (r: Result<Method, RpcFault>)
    ensures
        if protocol_version is Some && protocol_version->0 != RPC_PROTOCOL_VERSION {
            r matches Err(e) && fails(e, "unsupported_protocol_version"@)
        } else {
            match r {
                Ok(m) => method_name(m) == method@,
                Err(e) => {
                    &&& forall|other: Method| #[trigger] method_name(other) != method@
                    &&& faults(e, METHOD_NOT_FOUND, "Unknown method: "@ + method@)
                },
            }
        },
{
    if let Some(v) = protocol_version {
        if v != RPC_PROTOCOL_VERSION {
            return Err(rpc_err("unsupported_protocol_version"));
        }
    }
    match method_named(method) {
        Some(m) => Ok(m),
        None => Err(
            RpcFault { code: METHOD_NOT_FOUND, message: cat("Unknown method: ", method) },
        ),
    }
}

/// What a lookup of a peer by its name comes to.
pub fn resolve_peer<T>(found: Result<Option<T>, &str>) -> (r: Result<T, RpcFault>)
    ensures
        match found {
            Ok(Some(p)) => r == Ok::<T, RpcFault>(p),
            Ok(None) => r matches Err(e) && fails(e, "peer_not_found"@),
            Err(why) => r matches Err(e) && fails(e, "db: "@ + why@),
        },
{
    match found {
        Ok(Some(p)) => Ok(p),
        Ok(None) => Err(rpc_err("peer_not_found")),
        Err(why) => Err(rpc_err(cat("db: ", why).as_str())),
    }
}

/// What a lookup of a workspace by its id comes to.
pub fn resolve_workspace<T>(found: Result<Option<T>, &str>) -> (r: Result<T, RpcFault>)
    ensures
        match found {
            Ok(Some(w)) => r == Ok::<T, RpcFault>(w),
            Ok(None) => r matches Err(e) && fails(e, "workspace_not_found"@),
            Err(why) => r matches Err(e) && fails(e, "db: "@ + why@),
        },
{
    match found {
        Ok(Some(w)) => Ok(w),
        Ok(None) => Err(rpc_err("workspace_not_found")),
        Err(why) => Err(rpc_err(cat("db: ", why).as_str())),
    }
}

// ---------------------------------------------------------------------------
// Laws
// ---------------------------------------------------------------------------

/// A fault of the daemon has its code and says what went wrong; parameters
/// that do not fit have another.
pub proof fn faults_say_what_went_wrong(
    message: &str,
    error: &str,
    plain: RpcFault,
    failed: RpcFault,
    misfit: RpcFault,
)
    requires
        call_ensures(rpc_err, (message,), plain),
        call_ensures(rpc_fail, (message, error), failed),
        call_ensures(invalid_params, (error,), misfit),
    ensures
        plain.code == -32000,
        plain.message@ == message@,
        failed.code == -32000,
        failed.message@ == "Failed to "@ + message@ + ": "@ + error@,
        misfit.code == -32602,
        misfit.message@ == "Invalid params: "@ + error@,
{
}

/// A request of another version of the protocol calls nothing; one of this
/// version, or of none, calls the method that it names.
pub proof fn requests_call_what_they_name(
    protocol_version: Option<u32>,
    method: &str,
    r: Result<Method, RpcFault>,
)
    requires
        call_ensures(handle_rpc, (protocol_version, method), r),
    ensures
        protocol_version matches Some(v) ==> v != 1 ==> (r matches Err(e) && e.message@
            == "unsupported_protocol_version"@),
        protocol_version is None || protocol_version == Some(1u32) ==> {
            &&& r matches Ok(m) ==> method_name(m) == method@
            &&& r matches Err(e) ==> e.code == -32601 && e.message@ == "Unknown method: "@ + method@
        },
{
}

} // verus!

//! Requests on agents: summoning, and what is shown of them.

use super::{fails, rpc_err, rpc_fail, RpcFault};
use crate::paths::{path_below, strip_base};
use crate::text::{cat, cat3, copy_opt, holds, opt_text, same, texts};
use crate::types::{terminal, AgentState, Lane, RestartPolicy, SupervisionConfig};
use crate::workspace_db::WorkspaceState;
use vstd::prelude::*;
use vstd::string::*;

verus! {

/// The longest window of a restart budget, in seconds: a week.
pub const MAX_RESTART_WINDOW_SECS: u32 = 604_800;

/// The name of a restart policy.
pub open spec fn policy_name(p: RestartPolicy) -> Seq<char> {
    match p {
        RestartPolicy::Never => "never"@,
        RestartPolicy::OnFailure => "on_failure"@,
    }
}

/// The restart policy with a name.
pub open spec fn policy_named(s: Seq<char>) -> Option<RestartPolicy> {
    if s == policy_name(RestartPolicy::Never) {
        Some(RestartPolicy::Never)
    } else if s == policy_name(RestartPolicy::OnFailure) {
        Some(RestartPolicy::OnFailure)
    } else {
        None
    }
}

/// The restart policy with a name.
pub fn parse_policy(s: &str) -> (r: Option<RestartPolicy>)
    ensures
        r == policy_named(s@),
{
    if same(s, "never") {
        Some(RestartPolicy::Never)
    } else if same(s, "on_failure") {
        Some(RestartPolicy::OnFailure)
    } else {
        None
    }
}

/// What a summon asks for.
#[derive(Debug)]
pub struct SummonParams {
    pub task: String,
    pub name: Option<String>,
    pub model: Option<String>,
    /// Whether the agent is parked, not ended, after its first run.
    pub keep_alive: Option<bool>,
    /// A repeat under the same key gives back the agent of the first summon.
    pub idempotency_key: Option<String>,
    pub restart_policy: Option<String>,
    pub max_restarts: Option<u32>,
    pub restart_window_secs: Option<u32>,
    pub escalate_to: Option<String>,
    pub workspace: Option<String>,
    pub cwd: Option<String>,
    pub provider: Option<String>,
    pub parent_agent_id: Option<String>,
}

/// What an operator lets agents use. A denial wins; an empty list of what is
/// allowed allows everything.
#[derive(Debug)]
pub struct PolicyConfig {
    pub provider_allow: Vec<String>,
    pub provider_deny: Vec<String>,
    pub cwd_allow_prefixes: Vec<String>,
    pub cwd_deny_prefixes: Vec<String>,
}

/// What the answer to a summon says of an agent.
#[derive(Debug)]
pub struct SummonedAgent {
    pub id: String,
    pub name: Option<String>,
    pub state: AgentState,
}

/// A workspace that a summon asks for.
#[derive(Debug)]
pub struct FoundWorkspace {
    pub state: WorkspaceState,
    pub path: String,
}

/// What is known when a summon is decided on.
#[derive(Debug)]
pub struct SummonFacts {
    /// The agent that a summon under the same key made, if it is still there.
    pub minted: Option<SummonedAgent>,
    /// Why the address to escalate to is none, if it is not.
    pub escalate_fault: Option<String>,
    /// The workspace that is asked for, if there is one, or what kept it from
    /// being looked up.
    pub workspace: Result<Option<FoundWorkspace>, String>,
    pub default_provider: String,
    /// What the directory that is asked for, or none, resolves to.
    pub cwd: String,
    /// The directory that the agent will work in, its links followed where it
    /// exists.
    pub real_cwd: String,
    /// The operator's policy, its paths resolved.
    pub policy: Option<PolicyConfig>,
}

/// The restart policy that a summon names, "never" where it names none.
pub open spec fn asked_policy(p: SummonParams) -> Option<RestartPolicy> {
    match opt_text(p.restart_policy) {
        Some(s) => policy_named(s),
        None => Some(RestartPolicy::Never),
    }
}

/// What is wrong with the supervision that a summon asks for.
pub open spec fn supervision_fault(p: SummonParams, escalate_fault: Option<Seq<char>>) -> Option<
    Seq<char>,
> {
    match asked_policy(p) {
        None => Some("invalid_restart_policy"@),
        Some(RestartPolicy::Never) => if p.escalate_to is Some {
            Some("escalate_requires_policy"@)
        } else if p.max_restarts is Some || p.restart_window_secs is Some {
            Some("never_with_options"@)
        } else {
            None
        },
        Some(RestartPolicy::OnFailure) => if p.max_restarts is None {
            Some("max_restarts_required"@)
        } else if p.max_restarts->0 == 0 {
            Some("max_restarts_zero"@)
        } else if p.restart_window_secs is None || p.restart_window_secs->0 == 0 {
            Some("window_required"@)
        } else if p.restart_window_secs->0 > MAX_RESTART_WINDOW_SECS {
            Some("window_too_large"@)
        } else if p.escalate_to is Some {
            escalate_fault
        } else {
            None
        },
    }
}

/// What is wrong with the workspace that a summon asks for.
pub open spec fn workspace_fault(
    p: SummonParams,
    found: Result<Option<FoundWorkspace>, String>,
) -> Option<Seq<char>> {
    if p.workspace is None {
        None
    } else if p.cwd is Some {
        Some("conflicting_options"@)
    } else {
        match found {
            Err(why) => Some("db: "@ + why@),
            Ok(None) => Some("workspace_not_found"@),
            Ok(Some(w)) => if w.state == WorkspaceState::Active {
                None
            } else {
                Some("workspace_destroying"@)
            },
        }
    }
}

/// Whether a path lies under one of the prefixes.
pub open spec fn under_any(path: Seq<char>, prefixes: Seq<Seq<char>>) -> bool {
    exists|i: int| 0 <= i < prefixes.len() && path_below(path, #[trigger] prefixes[i]) is Some
}

/// What an operator's policy says against a provider and a directory.
pub open spec fn policy_fault(policy: Option<PolicyConfig>, provider: Seq<char>, cwd: Seq<char>) -> Option<
    Seq<char>,
> {
    match policy {
        None => None,
        Some(p) => if texts(p.provider_deny@).contains(provider) {
            Some("policy_provider_denied"@)
        } else if p.provider_allow@.len() > 0 && !texts(p.provider_allow@).contains(provider) {
            Some("policy_provider_not_allowed"@)
        } else if under_any(cwd, texts(p.cwd_deny_prefixes@)) {
            Some("policy_cwd_denied"@)
        } else if p.cwd_allow_prefixes@.len() > 0 && !under_any(
            cwd,
            texts(p.cwd_allow_prefixes@),
        ) {
            Some("policy_cwd_not_allowed"@)
        } else {
            None
        },
    }
}

/// The provider that a summon asks for, or the default one.
pub open spec fn asked_provider(p: SummonParams, default_provider: Seq<char>) -> Seq<char> {
    match opt_text(p.provider) {
        Some(s) => s,
        None => default_provider,
    }
}

/// Why a summon is refused.
pub open spec fn summon_refused(p: SummonParams, f: SummonFacts) -> Option<Seq<char>> {
    match supervision_fault(p, opt_text(f.escalate_fault)) {
        Some(code) => Some(code),
        None => match workspace_fault(p, f.workspace) {
            Some(code) => Some(code),
            None => policy_fault(f.policy, asked_provider(p, f.default_provider@), f.real_cwd@),
        },
    }
}

/// Whether a supervision is the one that a summon asks for.
pub open spec fn supervises(s: Option<SupervisionConfig>, p: SummonParams) -> bool {
    if asked_policy(p) == Some(RestartPolicy::OnFailure) {
        s matches Some(c) && c.policy == RestartPolicy::OnFailure && c.max_restarts
            == p.max_restarts && c.window_secs == p.restart_window_secs && opt_text(c.escalate_to)
            == opt_text(p.escalate_to)
    } else {
        s is None
    }
}

fn check_supervision(p: &SummonParams, escalate_fault: &Option<String>) -> (r: Result<
    Option<SupervisionConfig>,
    RpcFault,
>)
    ensures
        match supervision_fault(*p, opt_text(*escalate_fault)) {
            Some(code) => r matches Err(e) && fails(e, code),
            None => r matches Ok(s) && supervises(s, *p),
        },
{
    let policy = match &p.restart_policy {
        Some(s) => match parse_policy(s.as_str()) {
            Some(policy) => policy,
            None => return Err(rpc_err("invalid_restart_policy")),
        },
        None => RestartPolicy::Never,
    };
    if policy == RestartPolicy::Never {
        if p.escalate_to.is_some() {
            return Err(rpc_err("escalate_requires_policy"));
        }
        if p.max_restarts.is_some() || p.restart_window_secs.is_some() {
            return Err(rpc_err("never_with_options"));
        }
        return Ok(None);
    }
    match p.max_restarts {
        None => return Err(rpc_err("max_restarts_required")),
        Some(n) => if n == 0 {
            return Err(rpc_err("max_restarts_zero"));
        },
    }
    match p.restart_window_secs {
        None => return Err(rpc_err("window_required")),
        Some(n) => {
            if n == 0 {
                return Err(rpc_err("window_required"));
            }
            if n > MAX_RESTART_WINDOW_SECS {
                return Err(rpc_err("window_too_large"));
            }
        },
    }
    if p.escalate_to.is_some() {
        if let Some(code) = escalate_fault {
            return Err(rpc_err(code.as_str()));
        }
    }
    Ok(
        Some(
            SupervisionConfig {
                policy,
                max_restarts: p.max_restarts,
                window_secs: p.restart_window_secs,
                escalate_to: copy_opt(&p.escalate_to),
            },
        ),
    )
}

fn any_match(path: &str, prefixes: &Vec<String>) -> (r: bool)
    ensures
        r == under_any(path@, texts(prefixes@)),
{
    let ghost all = texts(prefixes@);
    for i in 0..prefixes.len()
        invariant
            all == texts(prefixes@),
            forall|j: int| 0 <= j < i ==> path_below(path@, #[trigger] all[j]) is None,
    {
        assert(all[i as int] == prefixes@[i as int]@);
        if strip_base(path, prefixes[i].as_str()).is_some() {
            return true;
        }
    }
    false
}

fn check_policy(policy: &Option<PolicyConfig>, provider: &str, cwd: &str) -> (r: Result<(), RpcFault>)
    ensures
        match policy_fault(*policy, provider@, cwd@) {
            Some(code) => r matches Err(e) && fails(e, code),
            None => r is Ok,
        },
{
    let p = match policy {
        None => return Ok(()),
        Some(p) => p,
    };
    if holds(&p.provider_deny, provider) {
        return Err(rpc_err("policy_provider_denied"));
    }
    if p.provider_allow.len() > 0 && !holds(&p.provider_allow, provider) {
        return Err(rpc_err("policy_provider_not_allowed"));
    }
    if any_match(cwd, &p.cwd_deny_prefixes) {
        return Err(rpc_err("policy_cwd_denied"));
    }
    if p.cwd_allow_prefixes.len() > 0 && !any_match(cwd, &p.cwd_allow_prefixes) {
        return Err(rpc_err("policy_cwd_not_allowed"));
    }
    Ok(())
}

/// What a summon starts with.
#[derive(Debug)]
pub enum SummonStart {
    /// Nothing is done: the answer is the agent of an earlier summon.
    Existing(SummonedAgent),
    /// A new agent is queued.
    Enqueue(SummonOrder),
}

/// What the queue is handed for a new agent.
#[derive(Debug)]
pub struct SummonOrder {
    pub task: String,
    pub name: Option<String>,
    pub model: Option<String>,
    pub provider: Option<String>,
    pub cwd: String,
    pub lane: Lane,
    pub keep_alive: bool,
    pub supervision: Option<SupervisionConfig>,
}

/// The directory that a new agent works in: that of its workspace where one is
/// asked for, else what the asked one resolves to.
pub open spec fn summon_cwd(p: SummonParams, f: SummonFacts) -> Seq<char> {
    if p.workspace is Some {
        f.workspace->Ok_0->0.path@
    } else {
        f.cwd@
    }
}

/// Whether an order is the one that a summon comes to. It waits with the
/// agents that were asked for one by one, and ends after its first run unless
/// it is asked to stay.
pub open spec fn orders(o: SummonOrder, p: SummonParams, f: SummonFacts) -> bool {
    &&& o.task@ == p.task@
    &&& opt_text(o.name) == opt_text(p.name)
    &&& opt_text(o.model) == opt_text(p.model)
    &&& opt_text(o.provider) == opt_text(p.provider)
    &&& o.cwd@ == summon_cwd(p, f)
    &&& o.lane == Lane::Adhoc
    &&& o.keep_alive == (p.keep_alive == Some(true))
    &&& supervises(o.supervision, p)
}

/// The order that a summon comes to.
fn build_order(p: &SummonParams, f: &SummonFacts, supervision: Option<SupervisionConfig>) -> (o:
    SummonOrder)
    requires
        supervises(supervision, *p),
        p.workspace is Some ==> f.workspace matches Ok(Some(_)),
    ensures
        orders(o, *p, *f),
{
    let mut cwd = f.cwd.clone();
    if p.workspace.is_some() {
        if let Ok(Some(w)) = &f.workspace {
            cwd = w.path.clone();
        }
    }
    SummonOrder {
        task: p.task.clone(),
        name: copy_opt(&p.name),
        model: copy_opt(&p.model),
        provider: copy_opt(&p.provider),
        cwd,
        lane: Lane::Adhoc,
        keep_alive: match p.keep_alive {
            Some(k) => k,
            None => false,
        },
        supervision,
    }
}

/// Whether a summon repeats one whose agent is still there.
pub open spec fn repeats(p: SummonParams, f: SummonFacts) -> bool {
    p.idempotency_key is Some && f.minted is Some
}

/// Decides on a summon: the agent that there is already, what the queue is
/// handed for a new one, or why there is no agent.
pub fn handle_summon(p: &SummonParams, f: &SummonFacts) -> (r: Result<SummonStart, RpcFault>)
    ensures
        if repeats(*p, *f) {
            r matches Ok(SummonStart::Existing(a)) && a.id@ == f.minted->0.id@ && opt_text(a.name)
                == opt_text(f.minted->0.name) && a.state == f.minted->0.state
        } else {
            match summon_refused(*p, *f) {
                Some(code) => r matches Err(e) && fails(e, code),
                None => r matches Ok(SummonStart::Enqueue(o)) && orders(o, *p, *f),
            }
        },
{
    if p.idempotency_key.is_some() {
        if let Some(a) = &f.minted {
            return Ok(
                SummonStart::Existing(
                    SummonedAgent { id: a.id.clone(), name: copy_opt(&a.name), state: a.state },
                ),
            );
        }
    }
    let supervision = match check_supervision(p, &f.escalate_fault) {
        Ok(s) => s,
        Err(e) => return Err(e),
    };
    if p.workspace.is_some() {
        if p.cwd.is_some() {
            return Err(rpc_err("conflicting_options"));
        }
        match &f.workspace {
            Err(why) => return Err(rpc_err(cat("db: ", why.as_str()).as_str())),
            Ok(None) => return Err(rpc_err("workspace_not_found")),
            Ok(Some(w)) => if w.state != WorkspaceState::Active {
                return Err(rpc_err("workspace_destroying"));
            },
        }
    }
    let provider = match &p.provider {
        Some(s) => s.as_str(),
        None => f.default_provider.as_str(),
    };
    match check_policy(&f.policy, provider, f.real_cwd.as_str()) {
        Ok(_) => Ok(SummonStart::Enqueue(build_order(p, f, supervision))),
        Err(e) => Err(e),
    }
}

/// How a summon ends, once the agent has its id.
#[derive(Debug)]
pub enum SummonEnd {
    Done,
    /// Banish the agent again, and answer with the fault.
    Rollback(RpcFault),
    /// Answer with the fault. The agent stays.
    Failed(RpcFault),
}

/// The rest of a summon: `parent_known` is what the lookup of the parent came
/// to, and `budget_ok` whether the budget for the agent's tree is one, where
/// it has one.
pub fn finish_summon(
    p: &SummonParams,
    new_id: &str,
    parent_known: Result<bool, &str>,
    budget_ok: Option<bool>,
) -> (r: SummonEnd)
    ensures
        match summon_end(*p, new_id@, parent_known, budget_ok) {
            SummonVerdict::Done => r is Done,
            SummonVerdict::Rollback(code) => r matches SummonEnd::Rollback(e) && fails(e, code),
            SummonVerdict::Failed(why) => r matches SummonEnd::Failed(e) && fails(
                e,
                "Failed to "@ + "summon"@ + ": "@ + why,
            ),
        },
{
    if let Some(parent) = &p.parent_agent_id {
        if same(parent.as_str(), new_id) {
            return SummonEnd::Rollback(rpc_err("self_parent"));
        }
        match parent_known {
            Ok(true) => {},
            Ok(false) => return SummonEnd::Rollback(rpc_err("parent_not_found")),
            Err(why) => return SummonEnd::Failed(rpc_fail("summon", why)),
        }
    }
    if let Some(ok) = budget_ok {
        if !ok {
            return SummonEnd::Rollback(rpc_err("invalid_tree_budget"));
        }
    }
    if let Some(addr) = &p.escalate_to {
        if same(addr.as_str(), cat("agent://", new_id).as_str()) {
            return SummonEnd::Rollback(rpc_err("self_escalation"));
        }
    }
    SummonEnd::Done
}

/// What a [`SummonEnd`] says.
pub ghost enum SummonVerdict {
    Done,
    Rollback(Seq<char>),
    Failed(Seq<char>),
}

/// How a summon ends.
pub open spec fn summon_end(
    p: SummonParams,
    new_id: Seq<char>,
    parent_known: Result<bool, &str>,
    budget_ok: Option<bool>,
) -> SummonVerdict {
    let parent = opt_text(p.parent_agent_id);
    if parent == Some(new_id) {
        SummonVerdict::Rollback("self_parent"@)
    } else if parent is Some && parent_known == Ok::<bool, &str>(false) {
        SummonVerdict::Rollback("parent_not_found"@)
    } else if parent is Some && parent_known is Err {
        SummonVerdict::Failed(parent_known->Err_0@)
    } else if budget_ok == Some(false) {
        SummonVerdict::Rollback("invalid_tree_budget"@)
    } else if opt_text(p.escalate_to) == Some("agent://"@ + new_id) {
        SummonVerdict::Rollback("self_escalation"@)
    } else {
        SummonVerdict::Done
    }
}

// ---------------------------------------------------------------------------
// What is shown
// ---------------------------------------------------------------------------

/// How long an entry has waited, in seconds; nothing where the clock went
/// back.
pub fn queue_age(seconds: i64) -> (age: u64)
    ensures
        age == (if seconds > 0 {
            seconds as int
        } else {
            0
        }),
{
    if seconds > 0 {
        seconds as u64
    } else {
        0
    }
}

/// The fault of a replay of an agent that is not there.
pub fn no_such_agent(id: &str) -> (f: RpcFault)
    ensures
        fails(f, "no agent matching '"@ + id@ + "'"@),
{
    rpc_err(cat3("no agent matching '", id, "'").as_str())
}

/// How many agents are in a state.
pub open spec fn count_in(states: Seq<AgentState>, s: AgentState) -> nat
    decreases states.len(),
{
    if states.len() == 0 {
        0
    } else {
        count_in(states.drop_last(), s) + (if states.last() == s {
            1nat
        } else {
            0nat
        })
    }
}

/// How many agents are active, and how many are queued.
pub fn status_counts(states: &Vec<AgentState>) -> (r: (usize, usize))
    ensures
        r.0 == count_in(states@, AgentState::Active),
        r.1 == count_in(states@, AgentState::Queued),
{
    let mut active: usize = 0;
    let mut queued: usize = 0;
    for i in 0..states.len()
        invariant
            active == count_in(states@.take(i as int), AgentState::Active),
            queued == count_in(states@.take(i as int), AgentState::Queued),
            active <= i,
            queued <= i,
    {
        let s = states[i];
        proof {
            assert(states@.take(i + 1).drop_last() =~= states@.take(i as int));
            assert(states@.take(i + 1).last() == s);
        }
        if s == AgentState::Active {
            active = active + 1;
        }
        if s == AgentState::Queued {
            queued = queued + 1;
        }
    }
    assert(states@.take(states@.len() as int) =~= states@);
    (active, queued)
}

/// An agent, as far as its process is looked at.
#[derive(Debug)]
pub struct ProcessRow {
    pub agent_id: String,
    pub state: AgentState,
    pub task: String,
    pub pid: Option<u32>,
    pub alive: bool,
}

/// An agent's process.
#[derive(Debug)]
pub struct AgentProcess {
    pub agent_id: String,
    pub state: AgentState,
    pub task: String,
    pub pid: u32,
    pub alive: bool,
    /// It lives although its agent has ended.
    pub stuck: bool,
}

/// What an [`AgentProcess`] says.
pub ghost struct ProcessView {
    pub agent_id: Seq<char>,
    pub state: AgentState,
    pub task: Seq<char>,
    pub pid: u32,
    pub alive: bool,
    pub stuck: bool,
}

/// What each process of a list says.
pub open spec fn processes_view(list: Seq<AgentProcess>) -> Seq<ProcessView> {
    list.map_values(
        |p: AgentProcess|
            ProcessView {
                agent_id: p.agent_id@,
                state: p.state,
                task: p.task@,
                pid: p.pid,
                alive: p.alive,
                stuck: p.stuck,
            },
    )
}

/// The processes of the agents that have one.
pub open spec fn processes(rows: Seq<ProcessRow>) -> Seq<ProcessView>
    decreases rows.len(),
{
    if rows.len() == 0 {
        seq![]
    } else {
        let before = processes(rows.drop_last());
        let row = rows.last();
        match row.pid {
            Some(pid) => before.push(
                ProcessView {
                    agent_id: row.agent_id@,
                    state: row.state,
                    task: row.task@,
                    pid,
                    alive: row.alive,
                    stuck: row.alive && terminal(row.state),
                },
            ),
            None => before,
        }
    }
}

/// The processes of the agents that have one.
pub fn handle_agent_processes(rows: &Vec<ProcessRow>) -> (r: Vec<AgentProcess>)
    ensures
        processes_view(r@) == processes(rows@),
{
    let mut r: Vec<AgentProcess> = Vec::new();
    assert(processes_view(r@) =~= processes(rows@.take(0)));
    for i in 0..rows.len()
        invariant
            processes_view(r@) == processes(rows@.take(i as int)),
    {
        let row = &rows[i];
        let ghost before = processes_view(r@);
        proof {
            assert(rows@.take(i + 1).drop_last() =~= rows@.take(i as int));
            assert(rows@.take(i + 1).last() == rows@[i as int]);
        }
        if let Some(pid) = row.pid {
            r.push(
                AgentProcess {
                    agent_id: row.agent_id.clone(),
                    state: row.state,
                    task: row.task.clone(),
                    pid,
                    alive: row.alive,
                    stuck: row.alive && row.state.is_terminal(),
                },
            );
            assert(processes_view(r@) =~= processes(rows@.take(i + 1)));
        }
    }
    assert(rows@.take(rows@.len() as int) =~= rows@);
    r
}

// ---------------------------------------------------------------------------
// Laws
// ---------------------------------------------------------------------------

/// A denial wins: a provider or a directory that is denied is refused even
/// where it is also allowed.
pub proof fn denial_wins(policy: PolicyConfig, provider: Seq<char>, cwd: Seq<char>)
    ensures
        texts(policy.provider_deny@).contains(provider) ==> policy_fault(
            Some(policy),
            provider,
            cwd,
        ) == Some("policy_provider_denied"@),
        under_any(cwd, texts(policy.cwd_deny_prefixes@)) ==> policy_fault(
            Some(policy),
            provider,
            cwd,
        ) is Some,
{
}

/// A policy without lists refuses nothing.
pub proof fn empty_policy_allows_all(policy: PolicyConfig, provider: Seq<char>, cwd: Seq<char>)
    requires
        policy.provider_allow@.len() == 0,
        policy.provider_deny@.len() == 0,
        policy.cwd_allow_prefixes@.len() == 0,
        policy.cwd_deny_prefixes@.len() == 0,
    ensures
        policy_fault(Some(policy), provider, cwd) is None,
{
}

/// An agent that is restarted has a budget of at least one restart, within a
/// window of at most a week.
pub proof fn supervision_is_bounded(p: SummonParams, f: SummonFacts)
    requires
        summon_refused(p, f) is None,
        asked_policy(p) == Some(RestartPolicy::OnFailure),
    ensures
        p.max_restarts is Some && p.max_restarts->0 >= 1,
        p.restart_window_secs is Some && 1 <= p.restart_window_secs->0
            <= MAX_RESTART_WINDOW_SECS,
{
}

/// Each policy has a name of its own, and no other name means one.
pub proof fn policies_are_named(s: Seq<char>)
    ensures
        policy_named("never"@) == Some(RestartPolicy::Never),
        policy_named("on_failure"@) == Some(RestartPolicy::OnFailure),
        s != "never"@ && s != "on_failure"@ ==> policy_named(s) is None,
{
    reveal_strlit("never");
    reveal_strlit("on_failure");
    assert("never"@[0] == 'n');
    assert("on_failure"@[0] == 'o');
}

/// A summon that names no policy, or "never", may not ask for restarts or for
/// an escalation; without them it is sound.
pub proof fn unsupervised_summons_take_no_options(p: SummonParams, escalate_fault: Option<Seq<char>>)
    requires
        p.restart_policy is None || p.restart_policy->0@ == "never"@,
    ensures
        p.escalate_to is Some ==> supervision_fault(p, escalate_fault) == Some(
            "escalate_requires_policy"@,
        ),
        p.escalate_to is None && (p.max_restarts is Some || p.restart_window_secs is Some)
            ==> supervision_fault(p, escalate_fault) == Some("never_with_options"@),
        p.escalate_to is None && p.max_restarts is None && p.restart_window_secs is None
            ==> supervision_fault(p, escalate_fault) is None,
{
    policies_are_named("never"@);
}

/// A summon with restarts on failure needs a budget and a window, of a week
/// at most, and an address that is sound where it names one. What is missing
/// first is told.
pub proof fn supervised_summons_need_a_budget(p: SummonParams, escalate_fault: Option<Seq<char>>)
    requires
        p.restart_policy matches Some(s) && s@ == "on_failure"@,
    ensures
        p.max_restarts is None ==> supervision_fault(p, escalate_fault) == Some(
            "max_restarts_required"@,
        ),
        p.max_restarts == Some(0u32) ==> supervision_fault(p, escalate_fault) == Some(
            "max_restarts_zero"@,
        ),
        p.max_restarts matches Some(n) ==> n > 0 ==> {
            &&& p.restart_window_secs is None ==> supervision_fault(p, escalate_fault) == Some(
                "window_required"@,
            )
            &&& p.restart_window_secs == Some(0u32) ==> supervision_fault(p, escalate_fault)
                == Some("window_required"@)
            &&& p.restart_window_secs matches Some(w) ==> w > 604_800 ==> supervision_fault(
                p,
                escalate_fault,
            ) == Some("window_too_large"@)
            &&& p.restart_window_secs matches Some(w) ==> 1 <= w <= 604_800 ==> {
                &&& p.escalate_to is None ==> supervision_fault(p, escalate_fault) is None
                &&& p.escalate_to is Some ==> supervision_fault(p, escalate_fault)
                    == escalate_fault
            }
        },
{
    policies_are_named("on_failure"@);
}

/// A policy with another name is refused.
pub proof fn unknown_policies_are_refused(p: SummonParams, escalate_fault: Option<Seq<char>>)
    requires
        p.restart_policy matches Some(s) && s@ != "on_failure"@ && s@ != "never"@,
    ensures
        supervision_fault(p, escalate_fault) == Some("invalid_restart_policy"@),
{
    policies_are_named(p.restart_policy->0@);
}

/// A workspace that is asked for takes the place of a directory, and must be
/// there and active.
pub proof fn asked_workspaces_must_be_active(
    p: SummonParams,
    found: Result<Option<FoundWorkspace>, String>,
)
    ensures
        p.workspace is None ==> workspace_fault(p, found) is None,
        p.workspace is Some && p.cwd is Some ==> workspace_fault(p, found) == Some(
            "conflicting_options"@,
        ),
        p.workspace is Some && p.cwd is None ==> {
            &&& found matches Err(why) ==> workspace_fault(p, found) == Some("db: "@ + why@)
            &&& found matches Ok(None) ==> workspace_fault(p, found) == Some(
                "workspace_not_found"@,
            )
            &&& found matches Ok(Some(w)) ==> w.state == WorkspaceState::Active
                ==> workspace_fault(p, found) is None
            &&& found matches Ok(Some(w)) ==> w.state != WorkspaceState::Active
                ==> workspace_fault(p, found) == Some("workspace_destroying"@)
        },
{
}

/// Where a list of what is allowed says something, it allows that and nothing
/// else; a directory is allowed with all that lies below it.
pub proof fn lists_allow_what_they_name(
    policy: PolicyConfig,
    provider: Seq<char>,
    cwd: Seq<char>,
)
    requires
        policy.provider_deny@.len() == 0,
        policy.cwd_deny_prefixes@.len() == 0,
    ensures
        policy.provider_allow@.len() > 0 && !texts(policy.provider_allow@).contains(provider)
            ==> policy_fault(Some(policy), provider, cwd) == Some("policy_provider_not_allowed"@),
        policy.provider_allow@.len() == 0 && policy.cwd_allow_prefixes@.len() > 0 && (forall|i: int|
            0 <= i < policy.cwd_allow_prefixes@.len() ==> path_below(
                cwd,
                #[trigger] texts(policy.cwd_allow_prefixes@)[i],
            ) is None) ==> policy_fault(Some(policy), provider, cwd) == Some(
            "policy_cwd_not_allowed"@,
        ),
        policy.provider_allow@.len() == 0 && (exists|i: int|
            0 <= i < policy.cwd_allow_prefixes@.len() && path_below(
                cwd,
                #[trigger] texts(policy.cwd_allow_prefixes@)[i],
            ) is Some) ==> policy_fault(Some(policy), provider, cwd) is None,
        policy_fault(None, provider, cwd) is None,
{
    assert(texts(policy.cwd_allow_prefixes@).len() == policy.cwd_allow_prefixes@.len());
    assert(texts(policy.cwd_deny_prefixes@).len() == 0);
    assert(texts(policy.provider_deny@).len() == 0);
}

/// A summon that is not refused queues an agent with what was asked for: its
/// task, its name, its model, its provider and its directory, which is that
/// of the workspace where one is asked for. The agent stays only where that
/// is asked for.
pub proof fn summons_queue_what_was_asked_for(
    p: SummonParams,
    f: SummonFacts,
    r: Result<SummonStart, RpcFault>,
)
    requires
        call_ensures(handle_summon, (&p, &f), r),
    ensures
        r matches Ok(SummonStart::Enqueue(o)) ==> {
            &&& o.task@ == p.task@
            &&& opt_text(o.name) == opt_text(p.name)
            &&& opt_text(o.model) == opt_text(p.model)
            &&& opt_text(o.provider) == opt_text(p.provider)
            &&& p.workspace is None ==> o.cwd@ == f.cwd@
            &&& p.workspace is Some ==> (f.workspace matches Ok(Some(w)) && o.cwd@ == w.path@)
            &&& o.lane == Lane::Adhoc
            &&& o.keep_alive <==> p.keep_alive == Some(true)
        },
        p.idempotency_key is Some && f.minted is Some <==> r matches Ok(SummonStart::Existing(_)),
        r matches Ok(SummonStart::Existing(a)) ==> a.id@ == f.minted->0.id@ && a.state
            == f.minted->0.state,
{
}

/// A summon that is not a repeat is refused for its supervision, its
/// workspace or the operator's policy, in that order, and for nothing else.
pub proof fn summons_are_refused_in_order(
    p: SummonParams,
    f: SummonFacts,
    r: Result<SummonStart, RpcFault>,
)
    requires
        call_ensures(handle_summon, (&p, &f), r),
        p.idempotency_key is None || f.minted is None,
    ensures
        ({
            let supervision = supervision_fault(p, opt_text(f.escalate_fault));
            let workspace = workspace_fault(p, f.workspace);
            let provider = match p.provider {
                Some(s) => s@,
                None => f.default_provider@,
            };
            let policy = policy_fault(f.policy, provider, f.real_cwd@);
            &&& r is Ok <==> supervision is None && workspace is None && policy is None
            &&& supervision matches Some(code) ==> (r matches Err(e) && fails(e, code))
            &&& supervision is None && workspace is Some ==> (r matches Err(e) && fails(
                e,
                workspace->0,
            ))
            &&& supervision is None && workspace is None && policy is Some ==> (r matches Err(e)
                && fails(e, policy->0))
        }),
{
}

/// The supervision of an agent is that of its summon: restarts on failure
/// with the budget and window asked for, or none.
pub proof fn supervision_is_as_asked(
    p: SummonParams,
    f: SummonFacts,
    r: Result<SummonStart, RpcFault>,
)
    requires
        call_ensures(handle_summon, (&p, &f), r),
    ensures
        r matches Ok(SummonStart::Enqueue(o)) ==> {
            &&& p.restart_policy is None ==> o.supervision is None
            &&& p.restart_policy matches Some(s) ==> s@ == "on_failure"@ ==> (o.supervision
                matches Some(c) && c.policy == RestartPolicy::OnFailure && c.max_restarts
                == p.max_restarts && c.window_secs == p.restart_window_secs && opt_text(
                c.escalate_to,
            ) == opt_text(p.escalate_to))
            &&& p.restart_policy matches Some(s) ==> s@ == "never"@ ==> o.supervision is None
        },
{
    policies_are_named("on_failure"@);
    policies_are_named("never"@);
}

/// A summon that cannot be finished is taken back: its agent would be its own
/// parent, its parent is not there, its tree's budget is none, or it would
/// escalate to itself.
pub proof fn unfit_summons_are_taken_back(
    p: SummonParams,
    new_id: &str,
    parent_known: Result<bool, &str>,
    budget_ok: Option<bool>,
    r: SummonEnd,
)
    requires
        call_ensures(finish_summon, (&p, new_id, parent_known, budget_ok), r),
    ensures
        r is Done <==> (p.parent_agent_id matches Some(a) ==> a@ != new_id@ && (parent_known
            matches Ok(known) && known)) && !(budget_ok matches Some(ok) && !ok) && (p.escalate_to
            matches Some(a) ==> a@ != "agent://"@ + new_id@),
        p.parent_agent_id matches Some(a) ==> a@ == new_id@ ==> (r matches SummonEnd::Rollback(e)
            && fails(e, "self_parent"@)),
        p.parent_agent_id matches Some(a) ==> a@ != new_id@ && parent_known == Ok::<bool, &str>(
            false,
        ) ==> (r matches SummonEnd::Rollback(e) && fails(e, "parent_not_found"@)),
        p.parent_agent_id is None && budget_ok == Some(false) ==> (r matches SummonEnd::Rollback(e)
            && fails(e, "invalid_tree_budget"@)),
        p.parent_agent_id is None && budget_ok != Some(false) && (p.escalate_to matches Some(a)
            && a@ == "agent://"@ + new_id@) ==> (r matches SummonEnd::Rollback(e) && fails(
            e,
            "self_escalation"@,
        )),
        r is Failed <==> (p.parent_agent_id matches Some(a) && a@ != new_id@ && parent_known
            is Err),
{
}

/// An agent counts under its own state.
pub proof fn states_are_counted(states: Seq<AgentState>, s: AgentState, other: AgentState)
    ensures
        count_in(Seq::<AgentState>::empty(), s) == 0,
        count_in(states.push(s), s) == count_in(states, s) + 1,
        other != s ==> count_in(states.push(other), s) == count_in(states, s),
{
    assert(states.push(s).drop_last() =~= states);
    assert(states.push(other).drop_last() =~= states);
}

/// An agent with a process is shown with it; one that lives after its agent
/// has ended is stuck.
pub proof fn living_processes_of_ended_agents_are_stuck(rows: Seq<ProcessRow>, row: ProcessRow)
    ensures
        processes(Seq::<ProcessRow>::empty()).len() == 0,
        row.pid is None ==> processes(rows.push(row)) == processes(rows),
        row.pid matches Some(pid) ==> ({
            let shown = processes(rows.push(row));
            &&& shown.len() == processes(rows).len() + 1
            &&& shown.drop_last() == processes(rows)
            &&& shown.last().agent_id == row.agent_id@
            &&& shown.last().state == row.state
            &&& shown.last().task == row.task@
            &&& shown.last().pid == pid
            &&& shown.last().alive == row.alive
            &&& shown.last().stuck <==> row.alive && (row.state == AgentState::Complete || row.state
                == AgentState::Failed || row.state == AgentState::Banished)
        }),
{
    assert(rows.push(row).drop_last() =~= rows);
    if row.pid is Some {
        assert(processes(rows.push(row)).drop_last() =~= processes(rows));
    }
}

} // verus!

//! What a supervisor does for the agents that it watches.

use crate::bytes::fitting;
use crate::supervisor::{
    awaits, escalation_recipients, handle_budget_exhausted, pending_view, replay_pending_on_boot,
    send_escalation, EscalationPlan, Exhaustion, HistoryRow, ManualRestartOutcome, PendingRestart,
    RestartDecision, Supervisor,
};
use crate::decimal::decimal;
use crate::text::{opt_text, texts};
use crate::types::{
    events_view, mails_view, Address, AgentState, EventView, RestartHistoryOutcome, RestartPolicy,
    StreamEvent, SupervisionConfig,
};
use vstd::prelude::*;

verus! {

/// An operator's restart goes through for a supervised agent that is not
/// awaited, is not too deep and has failed, rests or is complete. It is
/// recorded with the budget that it goes past; what stands in the way first
/// is told.
pub proof fn operators_restart_supervised_agents(
    s: Supervisor,
    agent: &str,
    c: SupervisionConfig,
    depth: u32,
    state: Option<AgentState>,
    count: u32,
    now: i64,
    r: (ManualRestartOutcome, Option<HistoryRow>),
)
    requires
        count < u32::MAX,
        c.policy == RestartPolicy::OnFailure,
        call_ensures(Supervisor::manual_restart, (&s, agent, &Some(c), depth, state, count, now), r),
    ensures
        awaits(s@.pending, agent@) ==> (r.0 matches ManualRestartOutcome::Rejected { reason }
            && reason@ == "already_pending"@),
        !awaits(s@.pending, agent@) && depth < s@.tree_depth_cap && (state == Some(
            AgentState::Failed,
        ) || state == Some(AgentState::Dormant) || state == Some(AgentState::Complete)) ==> (r.0
            matches ManualRestartOutcome::Scheduled { attempt } && attempt == count + 1),
        !awaits(s@.pending, agent@) && depth < s@.tree_depth_cap && (state is None || state == Some(
            AgentState::Active,
        ) || state == Some(AgentState::Queued) || state == Some(AgentState::Banished)) ==> (r.0
            matches ManualRestartOutcome::Rejected { reason } && reason@ == "bad_state"@),
        r.0 is Scheduled <==> r.1 is Some,
        r.1 matches Some(row) ==> row.agent_id@ == agent@ && row.at_secs == now && row.outcome
            == RestartHistoryOutcome::Scheduled && (c.max_restarts matches Some(max) ==> opt_text(
            row.error_summary,
        ) == Some(
            "manual: operator override (budget was "@ + decimal(count as nat) + "/"@ + decimal(
                max as nat,
            ) + ")"@,
        )),
{
}

/// A restart that is queued waits until its time, with its attempt, and is
/// told; no other restart is lost.
pub proof fn queued_restarts_wait(
    s: &mut Supervisor,
    agent: &str,
    attempt: u32,
    max: u32,
    fire_at: i64,
    state: AgentState,
    limited: bool,
    events: Vec<StreamEvent>,
)
    requires
        old(s).wf(),
        call_ensures(
            Supervisor::enqueue_restart_core,
            (s, agent, attempt, max, fire_at, state, limited),
            events,
        ),
    ensures
        awaits(final(s)@.pending, agent@),
        final(s)@.pending.len() == old(s)@.pending.len() + 1,
        exists|i: int|
            0 <= i < final(s)@.pending.len() && (#[trigger] final(s)@.pending[i]).agent_id
                == agent@ && final(s)@.pending[i].attempt == attempt
                && final(s)@.pending[i].fire_at == fire_at,
        final(s)@.tree_depth_cap == old(s)@.tree_depth_cap,
{
    let x = crate::supervisor::PendingView { fire_at, agent_id: agent@, attempt };
    let before = old(s)@.pending;
    let after = final(s)@.pending;
    before.to_multiset_ensures();
    after.to_multiset_ensures();
    assert(after.to_multiset().count(x) > 0);
    assert(after.contains(x));
    let i = choose|i: int| 0 <= i < after.len() && after[i] == x;
    assert(after[i].agent_id == agent@);
}

/// What is due is handed out, earliest first, and what is not stays.
pub proof fn due_restarts_are_handed_out(
    s: &mut Supervisor,
    now: i64,
    out: Vec<PendingRestart>,
    i: int,
)
    requires
        old(s).wf(),
        call_ensures(Supervisor::drain_due, (s, now), out),
        0 <= i < old(s)@.pending.len(),
    ensures
        out@.len() + final(s)@.pending.len() == old(s)@.pending.len(),
        i < out@.len() ==> out@[i].agent_id@ == old(s)@.pending[i].agent_id && out@[i].fire_at
            == old(s)@.pending[i].fire_at && out@[i].attempt == old(s)@.pending[i].attempt
            && out@[i].fire_at <= now,
        i >= out@.len() ==> old(s)@.pending[i].fire_at > now && final(s)@.pending[i - out@.len()]
            == old(s)@.pending[i],
{
    let handed = pending_view(out@);
    assert(handed.len() == out@.len());
    let all = handed + final(s)@.pending;
    assert(all == old(s)@.pending);
    if i < out@.len() {
        assert(all[i] == handed[i]);
        assert(handed[i] == out@[i]@);
    } else {
        assert(all[i] == final(s)@.pending[i - out@.len()]);
    }
}

/// A cancelled agent is awaited no more, and the others still are.
pub proof fn cancelled_restarts_are_gone(
    s: &mut Supervisor,
    agent: &str,
    removed: usize,
    other: Seq<char>,
)
    requires
        old(s).wf(),
        call_ensures(Supervisor::cancel_pending, (s, agent), removed),
        other != agent@,
    ensures
        !awaits(final(s)@.pending, agent@),
        awaits(old(s)@.pending, other) ==> awaits(final(s)@.pending, other),
        removed == old(s)@.pending.len() - final(s)@.pending.len(),
{
    let before = old(s)@.pending;
    let keep = |p: crate::supervisor::PendingView| p.agent_id != agent@;
    if awaits(before, other) {
        let i = choose|i: int| 0 <= i < before.len() && (#[trigger] before[i]).agent_id == other;
        before.lemma_filter_contains(keep, i);
        let after = before.filter(keep);
        let k = choose|k: int| 0 <= k < after.len() && after[k] == before[i];
        assert(after[k].agent_id == other);
    }
}

/// Only the failure of an agent that is not awaited yet is looked into.
pub proof fn failures_are_looked_into(s: Supervisor, agent: &str, state: AgentState, r: bool)
    requires
        call_ensures(Supervisor::on_state_change, (&s, agent, state), r),
    ensures
        state != AgentState::Failed ==> !r,
        awaits(s@.pending, agent@) ==> !r,
        state == AgentState::Failed && !awaits(s@.pending, agent@) ==> r,
{
}

/// After a boot a restart that is owed is due at once, unless its agent was
/// given up before.
pub proof fn boots_restart_at_once(
    escalated: bool,
    attempt: u32,
    fire_at: i64,
    limited: bool,
    now: i64,
    r: RestartDecision,
)
    requires
        call_ensures(
            replay_pending_on_boot,
            (escalated, RestartDecision::Restart { attempt, fire_at, rate_limited: limited }, now),
            r,
        ),
    ensures
        escalated ==> r is NotSupervised,
        !escalated ==> (r matches RestartDecision::Restart { attempt: a, fire_at: at, rate_limited }
            && a == attempt && at == now && !rate_limited),
{
}

/// A spent budget is recorded and told, with what went wrong. It is escalated
/// where an address is configured, but for agents that lie too deep.
pub proof fn spent_budgets_are_reported(
    agent: &str,
    reason: &str,
    c: SupervisionConfig,
    summary: Option<String>,
    now: i64,
    r: Exhaustion,
)
    requires
        call_ensures(handle_budget_exhausted, (agent, reason, &Some(c), &summary, now), r),
    ensures
        r.row.agent_id@ == agent@,
        r.row.outcome == RestartHistoryOutcome::BudgetExhausted,
        r.row.at_secs == now,
        opt_text(r.row.error_summary) == opt_text(summary),
        r.event@ matches EventView::RestartBudgetExhausted { agent_id, reason: why } && agent_id
            == agent@ && why == reason@,
        reason@ == "tree_depth_exceeded"@ ==> r.escalation is None,
        reason@ != "tree_depth_exceeded"@ ==> (r.escalation is Some <==> c.escalate_to is Some),
        r.escalation matches Some(e) ==> e.target@ == c.escalate_to->0@ && e.sender_id@
            == "supervisor://"@ + agent@ && (summary matches Some(t) ==> e.body@ == fitting(
            "[supervisor] agent "@ + agent@ + " failed (budget exhausted): "@ + t@,
            crate::supervisor::ESCALATION_BODY_MAX_BYTES as nat,
        )),
{
}

/// A granted restart is recorded for its agent, with the error that led to
/// it.
pub proof fn granted_restarts_are_recorded(
    s: Supervisor,
    agent: &str,
    now: i64,
    summary: Option<String>,
    row: HistoryRow,
)
    requires
        call_ensures(Supervisor::schedule_restart, (&s, agent, now, &summary), row),
    ensures
        row.agent_id@ == agent@,
        row.at_secs == now,
        row.outcome == RestartHistoryOutcome::Scheduled,
        opt_text(row.error_summary) == opt_text(summary),
{
}

/// An escalation to an agent is one message to it, from the supervisor, that
/// wakes it; to an agent of a peer there is none.
pub proof fn escalations_are_mailed(
    sender: &str,
    agent: String,
    body: &str,
    subs: Vec<String>,
    ids: Vec<String>,
    now: i64,
    r: Result<EscalationPlan, String>,
    daemon: String,
    remote: Result<EscalationPlan, String>,
)
    requires
        subs@.len() <= u32::MAX,
        ids@.len() >= 1,
        forall|i: int| 0 <= i < ids@.len() ==> (#[trigger] ids@[i])@.len() >= 6,
        call_ensures(
            send_escalation,
            (sender, &Ok::<Address, String>(Address::Agent(agent)), body, &subs, &ids, now),
            r,
        ),
        call_ensures(
            send_escalation,
            (
                sender,
                &Ok::<Address, String>(
                    Address::FederatedAgent { daemon_id: daemon, agent_id: agent },
                ),
                body,
                &subs,
                &ids,
                now,
            ),
            remote,
        ),
    ensures
        r matches Ok(plan) && plan.mails@.len() == 1 && plan.mails@[0].recipient_id@ == agent@
            && plan.mails@[0].body@ == body@ && opt_text(plan.mails@[0].sender_id) == Some(sender@)
            && plan.mails@[0].wake_eligible && plan.outcome.fanout_count == 1,
        remote matches Err(e) && e@ == "escalate_to_federated_unsupported"@,
{
    let to = Address::Agent(agent);
    assert(escalation_recipients(to@, texts(subs@)) =~= seq![agent@]);
    if r is Ok {
        let plan = r->Ok_0;
        assert(mails_view(plan.mails@).len() == plan.mails@.len());
        assert(mails_view(plan.mails@)[0] == plan.mails@[0]@);
        assert(events_view(plan.events@).len() == plan.events@.len());
    }
}

} // verus!

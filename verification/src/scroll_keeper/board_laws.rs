//! What the operations on a running scroll do to its tasks.

use super::approval::{resolved, rows_match, ApprovalError};
use super::dag::downstream;
use super::event_handlers::{agent_news, AgentNews};
use super::lifecycle::{has_cyclic_sections, inscribe, Inscription};
use super::scheduling::{dispatch_task_request, dispatch_to_peer, Pass, ScrollDispatchPayload};
use super::transitions::{retry_or_fail, Advance, RetryDecision};
use super::{
    scroll_state_name, task_rows, task_state_name, ApprovalState, Board, Gate, ScrollState, Task,
    TaskState,
};
use crate::decimal::decimal;
use crate::scroll_parser::{names, sound_dependencies, tasks_view, ScrollSpec};
use crate::text::opt_text;
use crate::types::{events_view, AgentState, EventView, StreamEvent};
use vstd::prelude::*;

verus! {

/// A task that is complete is so, and nothing else changes. The scroll ends
/// with its last task: failed where a task failed, else complete.
pub proof fn completion_ends_the_scroll(b: &mut Board, task: usize, r: Advance, i: int)
    requires
        old(b).wf(),
        task < old(b).states@.len(),
        call_ensures(Board::complete_task_and_advance, (b, task), r),
        0 <= i < old(b).states@.len(),
    ensures
        final(b).states@.len() == old(b).states@.len(),
        final(b).states@[task as int] == TaskState::Complete,
        i != task ==> final(b).states@[i] == old(b).states@[i],
        final(b).states@[i] == TaskState::Active || final(b).states@[i] == TaskState::Ready
            || final(b).states@[i] == TaskState::Blocked || final(b).states@[i]
            == TaskState::AwaitingApproval ==> r == Advance::Schedule && final(b).scroll
            == old(b).scroll,
        (forall|k: int|
            0 <= k < final(b).states@.len() ==> #[trigger] final(b).states@[k]
                == TaskState::Complete) ==> r == Advance::Finished(ScrollState::Complete)
            && final(b).scroll == ScrollState::Complete,
        (forall|k: int|
            0 <= k < final(b).states@.len() ==> #[trigger] final(b).states@[k]
                == TaskState::Complete || final(b).states@[k] == TaskState::Failed)
            && final(b).states@[i] == TaskState::Failed ==> r == Advance::Finished(
            ScrollState::Failed,
        ) && final(b).scroll == ScrollState::Failed,
{
    if final(b).states@[i] == TaskState::Failed {
        assert(final(b).states@.contains(TaskState::Failed));
    }
}

/// A task that failed takes with it what depends on it, and nothing else; the
/// scroll has failed once all its tasks have ended.
pub proof fn failure_skips_dependents(b: &mut Board, task: usize, r: Advance, i: int)
    requires
        old(b).wf(),
        task < old(b).states@.len(),
        !downstream(old(b).deps@, task as int, task as int),
        call_ensures(Board::fail_task_and_advance, (b, task), r),
        0 <= i < old(b).states@.len(),
    ensures
        final(b).states@.len() == old(b).states@.len(),
        final(b).states@[task as int] == TaskState::Failed,
        downstream(old(b).deps@, task as int, i) ==> final(b).states@[i] == TaskState::Skipped,
        i != task && !downstream(old(b).deps@, task as int, i) ==> final(b).states@[i] == old(
            b,
        ).states@[i],
        final(b).states@[i] == TaskState::Active || final(b).states@[i] == TaskState::Ready
            || final(b).states@[i] == TaskState::Blocked || final(b).states@[i]
            == TaskState::AwaitingApproval ==> r == Advance::Schedule && final(b).scroll
            == old(b).scroll,
        r != Advance::Schedule ==> r == Advance::Finished(ScrollState::Failed) && final(b).scroll
            == ScrollState::Failed,
{
}

/// A task that is tried again is ready, and nothing else changes. It is tried
/// again while it has tries left, after a notice that counts them.
pub proof fn retries_make_ready(
    b: &mut Board,
    task: usize,
    i: int,
    scroll_id: &str,
    name: &str,
    max: u32,
    count: u32,
    attempt: u32,
    r: RetryDecision,
)
    requires
        old(b).wf(),
        task < old(b).states@.len(),
        call_ensures(Board::retry, (b, task), ()),
        0 <= i < old(b).states@.len(),
        call_ensures(retry_or_fail, (scroll_id, name, max, count, attempt), r),
    ensures
        final(b).states@[task as int] == TaskState::Ready,
        i != task ==> final(b).states@[i] == old(b).states@[i],
        final(b).scroll == old(b).scroll,
        r is Retry <==> count < max,
        r matches RetryDecision::Retry { notice } ==> notice@ == "retrying scroll "@ + scroll_id@
            + " task '"@ + name@ + "' (attempt "@ + decimal(attempt as nat) + "/"@ + decimal(
            max as nat,
        ) + ")"@,
{
}

/// A scroll is activated once: from where it is inscribed, and from no other
/// state.
pub proof fn scrolls_are_activated_once(b: &mut Board, scroll_id: &str, r: Result<(), String>)
    requires
        call_ensures(Board::activate, (b, scroll_id), r),
    ensures
        r is Ok <==> old(b).scroll == ScrollState::Inscribed,
        r is Ok ==> final(b).scroll == ScrollState::Active,
        r is Err ==> final(b).scroll == old(b).scroll,
        r matches Err(e) ==> e@ == "Scroll "@ + scroll_id@ + " is in state '"@ + scroll_state_name(
            old(b).scroll,
        ) + "', can only activate from 'inscribed'"@,
        final(b).states@ == old(b).states@,
{
}

/// An abandoned scroll has no task left to run: those that had not ended are
/// skipped, and those that ran are named.
pub proof fn abandoned_scrolls_end(b: &mut Board, active: Vec<usize>, i: int)
    requires
        old(b).wf(),
        call_ensures(Board::abandon, (b,), active),
        0 <= i < old(b).states@.len(),
        i <= usize::MAX,
    ensures
        final(b).scroll == ScrollState::Abandoned,
        final(b).states@.len() == old(b).states@.len(),
        old(b).states@[i] == TaskState::Complete || old(b).states@[i] == TaskState::Failed
            ==> final(b).states@[i] == old(b).states@[i],
        old(b).states@[i] != TaskState::Complete && old(b).states@[i] != TaskState::Failed
            ==> final(b).states@[i] == TaskState::Skipped,
        active@.contains(i as usize) <==> old(b).states@[i] == TaskState::Active,
{
}

/// A held task that is approved is ready and its approval is noted; one that
/// is rejected fails, with what depends on it.
pub proof fn decisions_move_held_tasks(
    a: &mut Board,
    b: &mut Board,
    scroll_id: &str,
    tasks: Vec<Task>,
    task_ref: &str,
    approved: Result<(usize, StreamEvent), ApprovalError>,
    rejected: Result<(usize, Advance), ApprovalError>,
)
    requires
        old(a).wf(),
        old(b).wf(),
        rows_match(tasks@, *old(a)),
        rows_match(tasks@, *old(b)),
        call_ensures(Board::approve_task, (a, scroll_id, &tasks, task_ref), approved),
        call_ensures(Board::reject_task, (b, scroll_id, &tasks, task_ref), rejected),
    ensures
        approved matches Ok((i, event)) ==> {
            &&& i < tasks@.len()
            &&& resolved(task_rows(tasks@), task_ref@) == Some(i as int)
            &&& tasks@[i as int].state == TaskState::AwaitingApproval
            &&& final(a).states@[i as int] == TaskState::Ready
            &&& old(a).gates@[i as int] is Needed ==> final(a).gates@[i as int] == Gate::Needed(
                ApprovalState::Approved,
            )
            &&& event@ matches EventView::TaskStateChange { task_id, old_state, new_state, .. }
                && task_id == tasks@[i as int].id@ && old_state == TaskState::AwaitingApproval
                && new_state == TaskState::Ready
        },
        rejected matches Ok((i, _)) ==> {
            &&& i < tasks@.len()
            &&& resolved(task_rows(tasks@), task_ref@) == Some(i as int)
            &&& tasks@[i as int].state == TaskState::AwaitingApproval
            &&& !downstream(old(b).deps@, i as int, i as int) ==> final(b).states@[i as int]
                == TaskState::Failed
            &&& old(b).gates@[i as int] is Needed ==> final(b).gates@[i as int] == Gate::Needed(
                ApprovalState::Rejected,
            )
        },
        approved is Ok <==> rejected is Ok,
        approved matches Err(e) ==> *final(a) == *old(a) && (e is NotFound <==> resolved(
            task_rows(tasks@),
            task_ref@,
        ) is None),
{
    let rows = task_rows(tasks@);
    assert(rows.len() == tasks@.len());
    if approved is Ok {
        let i = approved->Ok_0.0 as int;
        super::approval::references_mean_ids_first(rows, task_ref@);
        assert(rows[i] == tasks@[i]@);
    }
    if rejected is Ok {
        let i = rejected->Ok_0.0 as int;
        super::approval::references_mean_ids_first(rows, task_ref@);
        assert(rows[i] == tasks@[i]@);
    }
}

/// A task that needs approval is held and told of, once; its approval is
/// pending until it is decided.
pub proof fn holding_is_told_once(b: &mut Board, i: usize, task: Task, events: Vec<StreamEvent>)
    requires
        old(b).wf(),
        i < old(b).states@.len(),
        call_ensures(Board::hold_for_approval, (b, i, &task), events),
    ensures
        final(b).states@[i as int] == TaskState::AwaitingApproval,
        old(b).gates@[i as int] is Needed ==> final(b).gates@[i as int] == Gate::Needed(
            ApprovalState::Pending,
        ),
        old(b).states@[i as int] == TaskState::AwaitingApproval && old(b).gates@[i as int]
            == Gate::Needed(ApprovalState::Pending) ==> events@.len() == 0,
        old(b).states@[i as int] != TaskState::AwaitingApproval ==> events@.len() == 2,
{
    assert(events_view(events@).len() == events@.len());
}

/// To scrolls an agent is complete, failed or still at work; one that was
/// banished has failed.
pub proof fn ends_of_agents_are_news(state: AgentState, r: AgentNews)
    requires
        call_ensures(agent_news, (state,), r),
    ensures
        r == AgentNews::Completed <==> state == AgentState::Complete,
        r == AgentNews::Failed <==> state == AgentState::Failed || state == AgentState::Banished,
{
}

/// The end of a peer's agent is the end of its task here: complete, or failed
/// with what depends on it. What is no end changes nothing.
pub proof fn remote_ends_are_mirrored(
    b: &mut Board,
    task: usize,
    state: AgentState,
    r: Option<&'static str>,
)
    requires
        old(b).wf(),
        task < old(b).states@.len(),
        !downstream(old(b).deps@, task as int, task as int),
        call_ensures(Board::handle_remote_state_change, (b, task, state), r),
    ensures
        state == AgentState::Complete ==> final(b).states@[task as int] == TaskState::Complete && r
            is Some && r->0@ == "complete"@,
        state == AgentState::Failed || state == AgentState::Banished
            ==> final(b).states@[task as int] == TaskState::Failed && r is Some && r->0@
            == "failed"@,
        state == AgentState::Queued || state == AgentState::Summoning || state
            == AgentState::Active || state == AgentState::Dormant || state
            == AgentState::Restarting ==> r is None && final(b).states@ == old(b).states@,
{
}

/// A pass begins with the slots that the scroll's budget leaves, and a task
/// that starts takes one; one that cannot start fails.
pub proof fn passes_use_their_slots(
    b: Board,
    begun: Pass,
    p: &mut Pass,
    on: &mut Board,
    task: usize,
    ok: bool,
)
    requires
        call_ensures(Board::schedule_tasks, (&b,), begun),
        old(p).started < old(p).slots,
        old(on).wf(),
        task < old(on).states@.len(),
        !downstream(old(on).deps@, task as int, task as int),
        call_ensures(Pass::settle, (p, on, task, ok), ()),
    ensures
        begun.started == 0,
        b.scroll != ScrollState::Active ==> begun.slots == 0,
        ok ==> final(p).started == old(p).started + 1 && final(on).states@[task as int]
            == TaskState::Active,
        !ok ==> final(p).started == old(p).started && final(on).states@[task as int]
            == TaskState::Failed,
        final(p).slots == old(p).slots,
{
}

/// A scroll is inscribed with its name, its source, its budget and one task
/// for each section, unless its sections depend on one another in a circle.
pub proof fn scrolls_are_inscribed(
    spec: ScrollSpec,
    scroll_id: &str,
    task_ids: Vec<String>,
    max: Option<u32>,
    source: Option<String>,
    now: i64,
    table: Vec<Vec<bool>>,
    r: Result<Inscription, String>,
)
    requires
        super::dag::square(table@, spec.tasks@.len() as int),
        task_ids@.len() == spec.tasks@.len(),
        spec.tasks@.len() <= u32::MAX,
        forall|i: int|
            0 <= i < spec.tasks@.len() ==> sound_dependencies(
                #[trigger] tasks_view(spec.tasks@)[i],
                names(tasks_view(spec.tasks@)),
            ),
        call_ensures(inscribe, (&spec, scroll_id, &task_ids, max, source, now, &table), r),
    ensures
        r is Err <==> has_cyclic_sections(tasks_view(spec.tasks@)),
        r matches Err(e) ==> e@ == "Dependency cycle detected in scroll "@ + scroll_id@,
        r matches Ok(made) ==> {
            &&& made.answer.scroll.id@ == scroll_id@
            &&& made.answer.scroll.name@ == spec.name@
            &&& made.answer.scroll.state == ScrollState::Inscribed
            &&& opt_text(made.answer.scroll.source_path) == opt_text(source)
            &&& max matches Some(n) ==> made.answer.scroll.max_concurrency == n
            &&& made.answer.task_count == spec.tasks@.len()
            &&& made.tasks@.len() == spec.tasks@.len()
        },
{
    if r is Ok {
        assert(task_rows(r->Ok_0.tasks@).len() == r->Ok_0.tasks@.len());
        assert(tasks_view(spec.tasks@).len() == spec.tasks@.len());
    }
}

/// A task that goes to a peer goes to the one that is known by the name, and
/// only where peers can be reached at all; a request for a task of another
/// scroll is refused.
pub proof fn tasks_go_to_known_peers(
    task: Task,
    peer_name: &str,
    bound: bool,
    peer_id: Option<String>,
    sent: Result<(String, ScrollDispatchPayload), String>,
    scroll_id: &str,
    asked: Result<ScrollDispatchPayload, &'static str>,
    none: Result<ScrollDispatchPayload, &'static str>,
)
    requires
        call_ensures(dispatch_to_peer, (&task, peer_name, bound, peer_id), sent),
        call_ensures(dispatch_task_request, (scroll_id, Some(&task)), asked),
        call_ensures(dispatch_task_request, (scroll_id, None::<&Task>), none),
    ensures
        sent is Ok <==> bound && peer_id is Some,
        sent matches Ok((id, p)) ==> id@ == peer_id->0@ && p.prompt@ == task.prompt@ && p.task_id@
            == task.id@ && p.task_name@ == task.name@,
        !bound ==> sent->Err_0@ == "peer_registry_not_bound"@,
        bound && peer_id is None ==> sent->Err_0@ == "peer_not_found: "@ + peer_name@,
        asked is Ok <==> task.scroll_id@ == scroll_id@,
        asked matches Ok(p) ==> p.prompt@ == task.prompt@ && p.task_id@ == task.id@,
        asked matches Err(e) ==> e@ == "task_scroll_mismatch"@,
        none is Err,
        none->Err_0@ == "task_not_found"@,
{
}

/// What is said of a decision that cannot be made names the task and why.
pub proof fn refusals_say_why(e: ApprovalError, r: String)
    requires
        call_ensures(ApprovalError::to_text, (&e,), r),
    ensures
        e matches ApprovalError::NotFound { task_ref, scroll_id } ==> r@ == "task '"@ + task_ref@
            + "' not found in scroll "@ + scroll_id@,
        e matches ApprovalError::NotAwaiting { name, state } ==> r@ == "task '"@ + name@
            + "' is not awaiting approval (state: "@ + task_state_name(state) + ")"@,
{
}

} // verus!

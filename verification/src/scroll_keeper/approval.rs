//! Human-in-the-loop approval: holding gated tasks, and the operator's
//! approval or refusal.

use super::transitions::{all_settled, skipped_downstream, Advance};
use super::{
    task_rows, task_state_name, with_approval, ApprovalState, Board, Gate, ScrollState, Task, TaskRow,
    TaskState,
};
use crate::text::{own, same};
use crate::types::{events_view, EventView, StreamEvent};
use vstd::prelude::*;
use vstd::string::*;

verus! {

/// The notice that a task is held.
pub open spec fn hold_notice(t: TaskRow) -> Seq<char> {
    "approval required: scroll "@ + t.scroll_id + " task '"@ + t.name + "' ("@ + t.id
        + ") is held for review. Approve with `grim scroll approve "@ + t.scroll_id + " "@ + t.name
        + "` or reject with `grim scroll reject "@ + t.scroll_id + " "@ + t.name + "`."@
}

/// What is told where a task moves from one state to another.
pub open spec fn moved(t: TaskRow, from: TaskState, to: TaskState) -> EventView {
    EventView::TaskStateChange {
        scroll_id: t.scroll_id,
        task_id: t.id,
        task_name: t.name,
        old_state: from,
        new_state: to,
    }
}

fn tell_moved(task: &Task, from: TaskState, to: TaskState) -> (e: StreamEvent)
    ensures
        e@ == moved(task@, from, to),
{
    StreamEvent::TaskStateChange {
        scroll_id: task.scroll_id.clone(),
        task_id: task.id.clone(),
        task_name: task.name.clone(),
        old_state: from,
        new_state: to,
    }
}

fn write_notice(task: &Task) -> (n: String)
    ensures
        n@ == hold_notice(task@),
{
    let mut n = own("approval required: scroll ");
    n.append(task.scroll_id.as_str());
    n.append(" task '");
    n.append(task.name.as_str());
    n.append("' (");
    n.append(task.id.as_str());
    n.append(") is held for review. Approve with `grim scroll approve ");
    n.append(task.scroll_id.as_str());
    n.append(" ");
    n.append(task.name.as_str());
    n.append("` or reject with `grim scroll reject ");
    n.append(task.scroll_id.as_str());
    n.append(" ");
    n.append(task.name.as_str());
    n.append("`.");
    n
}

/// What is told of a task that is held: its new state, and a notice to the
/// operator.
pub open spec fn hold_events(t: TaskRow) -> Seq<EventView> {
    seq![
        moved(t, TaskState::Ready, TaskState::AwaitingApproval),
        EventView::Notification {
            agent_id: None,
            message: hold_notice(t),
            level: "warn"@,
            source: "system"@,
        },
    ]
}

/// Whether a task is held already.
pub open spec fn is_held(state: TaskState, gate: Gate) -> bool {
    state == TaskState::AwaitingApproval && gate == Gate::Needed(ApprovalState::Pending)
}

impl Board {
    /// Parks a task until it is approved.
    pub fn hold(&mut self, task: usize)
        requires
            old(self).wf(),
            task < old(self).states@.len(),
        ensures
            final(self).wf(),
            final(self).deps == old(self).deps,
            final(self).scroll == old(self).scroll,
            final(self).max_concurrency == old(self).max_concurrency,
            final(self).states@ == old(self).states@.update(
                task as int,
                TaskState::AwaitingApproval,
            ),
            final(self).gates@ == old(self).gates@.update(
                task as int,
                with_approval(old(self).gates@[task as int], ApprovalState::Pending),
            ),
    {
        let gate = self.gates[task].record(ApprovalState::Pending);
        self.states.set(task, TaskState::AwaitingApproval);
        self.gates.set(task, gate);
    }

    /// Holds a gated task for approval. The operator is told, unless the task
    /// was held already.
    pub fn hold_for_approval(&mut self, i: usize, task: &Task) -> (events: Vec<StreamEvent>)
        requires
            old(self).wf(),
            i < old(self).states@.len(),
        ensures
            final(self).wf(),
            final(self).deps == old(self).deps,
            final(self).scroll == old(self).scroll,
            final(self).max_concurrency == old(self).max_concurrency,
            final(self).states@ == old(self).states@.update(i as int, TaskState::AwaitingApproval),
            final(self).gates@ == old(self).gates@.update(
                i as int,
                with_approval(old(self).gates@[i as int], ApprovalState::Pending),
            ),
            events_view(events@) == (if is_held(
                old(self).states@[i as int],
                old(self).gates@[i as int],
            ) {
                seq![]
            } else {
                hold_events(task@)
            }),
    {
        let pending = match self.gates[i] {
            Gate::Needed(ApprovalState::Pending) => true,
            _ => false,
        };
        let again = pending && self.states[i] == TaskState::AwaitingApproval;
        self.hold(i);
        let mut events: Vec<StreamEvent> = Vec::new();
        if !again {
            events.push(tell_moved(task, TaskState::Ready, TaskState::AwaitingApproval));
            events.push(
                StreamEvent::Notification {
                    agent_id: None,
                    message: write_notice(task),
                    level: own("warn"),
                    source: own("system"),
                },
            );
            assert(events_view(events@) =~= hold_events(task@));
        } else {
            assert(events_view(events@) =~= Seq::<EventView>::empty());
        }
        events
    }
}

/// The first task at or after `i` with the id.
pub open spec fn by_id(rows: Seq<TaskRow>, id: Seq<char>, i: int) -> Option<int>
    decreases rows.len() - i,
{
    if i < 0 || i >= rows.len() {
        None
    } else if rows[i].id == id {
        Some(i)
    } else {
        by_id(rows, id, i + 1)
    }
}

/// The first task at or after `i` with the name.
pub open spec fn by_name(rows: Seq<TaskRow>, name: Seq<char>, i: int) -> Option<int>
    decreases rows.len() - i,
{
    if i < 0 || i >= rows.len() {
        None
    } else if rows[i].name == name {
        Some(i)
    } else {
        by_name(rows, name, i + 1)
    }
}

/// The task that a reference means: the one with that id, or else the first
/// of that name.
pub open spec fn resolved(rows: Seq<TaskRow>, task_ref: Seq<char>) -> Option<int> {
    match by_id(rows, task_ref, 0) {
        Some(i) => Some(i),
        None => by_name(rows, task_ref, 0),
    }
}

/// The task that a reference means.
pub fn resolve_task_in_scroll(tasks: &Vec<Task>, task_ref: &str) -> (r: Option<usize>)
    ensures
        match r {
            Some(i) => i < tasks@.len() && resolved(task_rows(tasks@), task_ref@) == Some(i as int),
            None => resolved(task_rows(tasks@), task_ref@) is None,
        },
{
    let ghost rows = task_rows(tasks@);
    let mut i: usize = 0;
    while i < tasks.len()
        invariant
            i <= tasks@.len(),
            rows == task_rows(tasks@),
            by_id(rows, task_ref@, 0) == by_id(rows, task_ref@, i as int),
        decreases tasks@.len() - i,
    {
        assert(rows[i as int] == tasks@[i as int]@);
        if same(tasks[i].id.as_str(), task_ref) {
            return Some(i);
        }
        i = i + 1;
    }
    let mut j: usize = 0;
    while j < tasks.len()
        invariant
            j <= tasks@.len(),
            rows == task_rows(tasks@),
            by_id(rows, task_ref@, 0) is None,
            by_name(rows, task_ref@, 0) == by_name(rows, task_ref@, j as int),
        decreases tasks@.len() - j,
    {
        assert(rows[j as int] == tasks@[j as int]@);
        if same(tasks[j].name.as_str(), task_ref) {
            return Some(j);
        }
        j = j + 1;
    }
    None
}

/// Why an approval or refusal cannot be taken.
#[derive(Debug)]
pub enum ApprovalError {
    NotFound { task_ref: String, scroll_id: String },
    NotAwaiting { name: String, state: TaskState },
}

/// The message of an [`ApprovalError`].
pub open spec fn approval_message(e: ApprovalError) -> Seq<char> {
    match e {
        ApprovalError::NotFound { task_ref, scroll_id } => "task '"@ + task_ref@
            + "' not found in scroll "@ + scroll_id@,
        ApprovalError::NotAwaiting { name, state } => "task '"@ + name@
            + "' is not awaiting approval (state: "@ + task_state_name(state) + ")"@,
    }
}

impl ApprovalError {
    /// The error as a message for people.
    pub fn to_text(&self) -> (r: String)
        ensures
            r@ == approval_message(*self),
    {
        match self {
            ApprovalError::NotFound { task_ref, scroll_id } => {
                let mut r = own("task '");
                r.append(task_ref.as_str());
                r.append("' not found in scroll ");
                r.append(scroll_id.as_str());
                r
            },
            ApprovalError::NotAwaiting { name, state } => {
                let mut r = own("task '");
                r.append(name.as_str());
                r.append("' is not awaiting approval (state: ");
                r.append(state.as_str());
                r.append(")");
                r
            },
        }
    }
}

/// The held task that a reference means.
pub open spec fn held(rows: Seq<TaskRow>, task_ref: Seq<char>) -> Option<int> {
    match resolved(rows, task_ref) {
        Some(i) => if rows[i].state == TaskState::AwaitingApproval {
            Some(i)
        } else {
            None
        },
        None => None,
    }
}

fn held_task(scroll_id: &str, tasks: &Vec<Task>, task_ref: &str) -> (r: Result<
    usize,
    ApprovalError,
>)
    ensures
        match r {
            Ok(i) => i < tasks@.len() && held(task_rows(tasks@), task_ref@) == Some(i as int),
            Err(e) => refusal(task_rows(tasks@), scroll_id@, task_ref@, e),
        },
{
    match resolve_task_in_scroll(tasks, task_ref) {
        None => Err(
            ApprovalError::NotFound { task_ref: own(task_ref), scroll_id: own(scroll_id) },
        ),
        Some(i) => {
            assert(task_rows(tasks@)[i as int] == tasks@[i as int]@);
            if tasks[i].state != TaskState::AwaitingApproval {
                Err(
                    ApprovalError::NotAwaiting {
                        name: tasks[i].name.clone(),
                        state: tasks[i].state,
                    },
                )
            } else {
                Ok(i)
            }
        },
    }
}

/// Whether `e` says why no held task is meant.
pub open spec fn refusal(
    rows: Seq<TaskRow>,
    scroll_id: Seq<char>,
    task_ref: Seq<char>,
    e: ApprovalError,
) -> bool {
    match e {
        ApprovalError::NotFound { task_ref: t, scroll_id: s } => resolved(rows, task_ref) is None
            && t@ == task_ref && s@ == scroll_id,
        ApprovalError::NotAwaiting { name, state } => resolved(rows, task_ref) matches Some(i)
            && rows[i].state != TaskState::AwaitingApproval && name@ == rows[i].name && state
            == rows[i].state,
    }
}

/// Whether the rows of a scroll's tasks stand as its board says.
pub open spec fn rows_match(tasks: Seq<Task>, board: Board) -> bool {
    &&& tasks.len() == board.states@.len()
    &&& forall|i: int|
        0 <= i < tasks.len() ==> (#[trigger] tasks[i]).state == board.states@[i]
}

impl Board {
    /// Approves a held task: its gate is open, it is ready again, and
    /// scheduling follows. Returns the task's number and what is told.
    pub fn approve_task(&mut self, scroll_id: &str, tasks: &Vec<Task>, task_ref: &str) -> (r:
        Result<(usize, StreamEvent), ApprovalError>)
        requires
            old(self).wf(),
            rows_match(tasks@, *old(self)),
        ensures
            final(self).wf(),
            final(self).deps == old(self).deps,
            final(self).scroll == old(self).scroll,
            final(self).max_concurrency == old(self).max_concurrency,
            match r {
                Ok((i, event)) => {
                    &&& held(task_rows(tasks@), task_ref@) == Some(i as int)
                    &&& final(self).states@ == old(self).states@.update(i as int, TaskState::Ready)
                    &&& final(self).gates@ == old(self).gates@.update(
                        i as int,
                        with_approval(old(self).gates@[i as int], ApprovalState::Approved),
                    )
                    &&& event@ == moved(
                        tasks@[i as int]@,
                        TaskState::AwaitingApproval,
                        TaskState::Ready,
                    )
                },
                Err(e) => refusal(task_rows(tasks@), scroll_id@, task_ref@, e) && *final(self)
                    == *old(self),
            },
    {
        match held_task(scroll_id, tasks, task_ref) {
            Err(e) => Err(e),
            Ok(i) => {
                let gate = self.gates[i].record(ApprovalState::Approved);
                self.gates.set(i, gate);
                self.states.set(i, TaskState::Ready);
                let event = tell_moved(&tasks[i], TaskState::AwaitingApproval, TaskState::Ready);
                Ok((i, event))
            },
        }
    }

    /// Refuses a held task: it fails, and everything downstream is skipped.
    /// Returns the task's number and what follows.
    pub fn reject_task(&mut self, scroll_id: &str, tasks: &Vec<Task>, task_ref: &str) -> (r: Result<
        (usize, Advance),
        ApprovalError,
    >)
        requires
            old(self).wf(),
            rows_match(tasks@, *old(self)),
        ensures
            final(self).wf(),
            final(self).deps == old(self).deps,
            final(self).max_concurrency == old(self).max_concurrency,
            match r {
                Ok((i, next)) => {
                    &&& held(task_rows(tasks@), task_ref@) == Some(i as int)
                    &&& final(self).states@ == skipped_downstream(
                        *old(self),
                        old(self).states@.update(i as int, TaskState::Failed),
                        i as int,
                    )
                    &&& final(self).gates@ == old(self).gates@.update(
                        i as int,
                        with_approval(old(self).gates@[i as int], ApprovalState::Rejected),
                    )
                    &&& if all_settled(final(self).states@) {
                        next == Advance::Finished(ScrollState::Failed) && final(self).scroll
                            == ScrollState::Failed
                    } else {
                        next == Advance::Schedule && final(self).scroll == old(self).scroll
                    }
                },
                Err(e) => refusal(task_rows(tasks@), scroll_id@, task_ref@, e) && *final(self)
                    == *old(self),
            },
    {
        match held_task(scroll_id, tasks, task_ref) {
            Err(e) => Err(e),
            Ok(i) => {
                let gate = self.gates[i].record(ApprovalState::Rejected);
                self.gates.set(i, gate);
                let next = self.fail_task_and_advance(i);
                Ok((i, next))
            },
        }
    }
}

// ---------------------------------------------------------------------------
// Laws
// ---------------------------------------------------------------------------

/// A gated task that was held is held, and to hold it again changes nothing.
pub proof fn holding_is_idempotent(gate: Gate)
    requires
        gate is Needed,
    ensures
        is_held(TaskState::AwaitingApproval, with_approval(gate, ApprovalState::Pending)),
        with_approval(with_approval(gate, ApprovalState::Pending), ApprovalState::Pending)
            == with_approval(gate, ApprovalState::Pending),
{
}

/// A reference means the first task whose id it is; where it is no task's id,
/// the first whose name it is; and nothing where it is neither.
pub proof fn references_mean_ids_first(rows: Seq<TaskRow>, task_ref: Seq<char>)
    ensures
        match resolved(rows, task_ref) {
            Some(i) => {
                &&& 0 <= i < rows.len()
                &&& rows[i].id == task_ref || rows[i].name == task_ref
                &&& rows[i].id != task_ref ==> forall|k: int|
                    0 <= k < rows.len() ==> (#[trigger] rows[k]).id != task_ref
                &&& forall|k: int|
                    0 <= k < i ==> (#[trigger] rows[k]).id != task_ref && (rows[i].id != task_ref
                        ==> rows[k].name != task_ref)
            },
            None => forall|k: int|
                0 <= k < rows.len() ==> (#[trigger] rows[k]).id != task_ref && rows[k].name
                    != task_ref,
        },
{
    lemma_by_id(rows, task_ref, 0);
    lemma_by_name(rows, task_ref, 0);
}

proof fn lemma_by_id(rows: Seq<TaskRow>, id: Seq<char>, i: int)
    requires
        0 <= i <= rows.len(),
    ensures
        match by_id(rows, id, i) {
            Some(k) => i <= k < rows.len() && rows[k].id == id && forall|j: int|
                i <= j < k ==> (#[trigger] rows[j]).id != id,
            None => forall|j: int| i <= j < rows.len() ==> (#[trigger] rows[j]).id != id,
        },
    decreases rows.len() - i,
{
    if i < rows.len() && rows[i].id != id {
        lemma_by_id(rows, id, i + 1);
    }
}

proof fn lemma_by_name(rows: Seq<TaskRow>, name: Seq<char>, i: int)
    requires
        0 <= i <= rows.len(),
    ensures
        match by_name(rows, name, i) {
            Some(k) => i <= k < rows.len() && rows[k].name == name && forall|j: int|
                i <= j < k ==> (#[trigger] rows[j]).name != name,
            None => forall|j: int| i <= j < rows.len() ==> (#[trigger] rows[j]).name != name,
        },
    decreases rows.len() - i,
{
    if i < rows.len() && rows[i].name != name {
        lemma_by_name(rows, name, i + 1);
    }
}

/// Only a task that awaits approval can be approved or refused.
pub proof fn only_held_tasks_are_decided(rows: Seq<TaskRow>, task_ref: Seq<char>)
    ensures
        held(rows, task_ref) matches Some(i) ==> rows[i].state == TaskState::AwaitingApproval
            && resolved(rows, task_ref) == Some(i),
        held(rows, task_ref) is None ==> (resolved(rows, task_ref) matches Some(i)
            ==> rows[i].state != TaskState::AwaitingApproval),
{
}

/// A decision is recorded on a gate that needs one, and opens no other.
pub proof fn decisions_are_recorded(a: ApprovalState, before: ApprovalState)
    ensures
        with_approval(Gate::Needed(before), a) == Gate::Needed(a),
        with_approval(Gate::Open, a) == Gate::Open,
        is_held(TaskState::AwaitingApproval, Gate::Needed(a)) <==> a == ApprovalState::Pending,
{
}

/// What is told of a held task: it awaits approval now, and the operator is
/// told which task of which scroll it is.
pub proof fn held_tasks_are_told(t: TaskRow)
    ensures
        hold_events(t).len() == 2,
        hold_events(t)[0] == (EventView::TaskStateChange {
            scroll_id: t.scroll_id,
            task_id: t.id,
            task_name: t.name,
            old_state: TaskState::Ready,
            new_state: TaskState::AwaitingApproval,
        }),
        hold_events(t)[1] matches EventView::Notification { agent_id, message, level, source }
            && agent_id is None && level == "warn"@ && source == "system"@ && (
        "approval required: scroll "@ + t.scroll_id + " task '"@ + t.name).is_prefix_of(message),
{
    let head = "approval required: scroll "@ + t.scroll_id + " task '"@ + t.name;
    let all = hold_notice(t);
    assert(head =~= all.subrange(0, head.len() as int));
}

} // verus!

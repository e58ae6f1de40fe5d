//! DAG scheduling: which ready tasks are held, delayed, spawned here or
//! dispatched to a peer, within the concurrency budget.
//!
//! The caller performs each action and reports how it went.

use super::transitions::skipped_downstream;
use super::{with_approval, ApprovalState, Board, Gate, ScrollState, Task, TaskRow, TaskState};
use crate::text::{cat, copy_texts, opt_text, own, texts};
use vstd::prelude::*;
use vstd::string::*;

verus! {

/// Number of tasks in a state.
pub open spec fn state_count(states: Seq<TaskState>, s: TaskState) -> nat
    decreases states.len(),
{
    if states.len() == 0 {
        0
    } else {
        state_count(states.drop_last(), s) + if states.last() == s {
            1nat
        } else {
            0nat
        }
    }
}

/// Slots that a scroll has left: none unless it is active.
pub open spec fn free_slots(scroll: ScrollState, max_concurrency: u32, active: nat) -> int {
    if scroll == ScrollState::Active && active < max_concurrency {
        max_concurrency - active
    } else {
        0
    }
}

/// What to do with a ready task.
#[derive(Clone, Copy, Debug, PartialEq, Eq, Structural)]
pub enum TaskAction {
    /// Every slot is taken: the rest wait.
    Stop,
    /// The task needs approval first.
    Hold,
    /// Its approval was refused: it fails.
    Fail,
    /// It conflicts with a task that runs.
    Delay,
    /// A peer runs it.
    Dispatch,
    /// An agent of this daemon runs it.
    Spawn,
}

/// What to do with a ready task, with `started` of `slots` slots taken.
pub open spec fn task_action(
    slots: int,
    started: int,
    gate: Gate,
    conflict: bool,
    has_peer: bool,
) -> TaskAction {
    if started >= slots {
        TaskAction::Stop
    } else if gate == Gate::Needed(ApprovalState::Unset) || gate == Gate::Needed(
        ApprovalState::Pending,
    ) {
        TaskAction::Hold
    } else if gate == Gate::Needed(ApprovalState::Rejected) {
        TaskAction::Fail
    } else if conflict {
        TaskAction::Delay
    } else if has_peer {
        TaskAction::Dispatch
    } else {
        TaskAction::Spawn
    }
}

/// Which tasks are active.
pub open spec fn active_flags(states: Seq<TaskState>) -> Seq<bool> {
    states.map_values(|s: TaskState| s == TaskState::Active)
}

/// Whether a task conflicts with one that is flagged. `row[i]` says whether it
/// conflicts with task `i`.
pub open spec fn conflicting(flags: Seq<bool>, row: Seq<bool>) -> bool {
    exists|i: int| 0 <= i < flags.len() && #[trigger] flags[i] && row[i]
}

/// One pass over the ready tasks of a scroll.
#[derive(Debug)]
pub struct Pass {
    pub slots: usize,
    pub started: usize,
    /// The tasks that were active when the pass began. What starts in the
    /// pass does not count.
    pub active: Vec<bool>,
}

impl Board {
    fn count_active(&self) -> (n: usize)
        ensures
            n == state_count(self.states@, TaskState::Active),
    {
        let mut n: usize = 0;
        for i in 0..self.states.len()
            invariant
                n == state_count(self.states@.take(i as int), TaskState::Active),
                n <= i,
        {
            proof {
                let now = self.states@.take(i + 1);
                assert(now.drop_last() =~= self.states@.take(i as int));
                assert(now.last() == self.states@[i as int]);
            }
            if self.states[i] == TaskState::Active {
                n = n + 1;
            }
        }
        assert(self.states@.take(self.states@.len() as int) =~= self.states@);
        n
    }

    fn flag_active(&self) -> (r: Vec<bool>)
        ensures
            r@ == active_flags(self.states@),
    {
        let mut r: Vec<bool> = Vec::new();
        for i in 0..self.states.len()
            invariant
                r@.len() == i,
                forall|k: int| 0 <= k < i ==> #[trigger] r@[k] == (self.states@[k] == TaskState::Active),
        {
            r.push(self.states[i] == TaskState::Active);
        }
        assert(r@ =~= active_flags(self.states@));
        r
    }

    /// Begins a pass over the ready tasks.
    pub fn schedule_tasks(&self) -> (p: Pass)
        ensures
            p.started == 0,
            p.slots == free_slots(
                self.scroll,
                self.max_concurrency,
                state_count(self.states@, TaskState::Active),
            ),
            p.active@ == active_flags(self.states@),
    {
        let flags = self.flag_active();
        if self.scroll != ScrollState::Active {
            return Pass { slots: 0, started: 0, active: flags };
        }
        let active: usize = self.count_active();
        let cap: usize = self.max_concurrency as usize;
        let slots: usize = if active < cap {
            cap - active
        } else {
            0
        };
        Pass { slots, started: 0, active: flags }
    }
}

impl Pass {
    /// Whether a ready task conflicts with one that was active when the pass
    /// began. `row[i]` says whether it conflicts with task `i`.
    pub fn conflicts(&self, row: &Vec<bool>) -> (r: bool)
        requires
            row@.len() == self.active@.len(),
        ensures
            r == conflicting(self.active@, row@),
    {
        let mut i: usize = 0;
        while i < self.active.len()
            invariant
                i <= self.active@.len(),
                row@.len() == self.active@.len(),
                forall|k: int| 0 <= k < i ==> !(#[trigger] self.active@[k] && row@[k]),
            decreases self.active@.len() - i,
        {
            if self.active[i] && row[i] {
                assert(self.active@[i as int]);
                return true;
            }
            i = i + 1;
        }
        false
    }

    /// What to do with the next ready task. Where its approval could not be
    /// read, it is taken to need none.
    pub fn next(&self, board: &Board, task: usize, readable: bool, row: &Vec<bool>, has_peer: bool) -> (r:
        TaskAction)
        requires
            board.wf(),
            task < board.states@.len(),
            row@.len() == self.active@.len(),
        ensures
            r == task_action(
                self.slots as int,
                self.started as int,
                if readable {
                    board.gates@[task as int]
                } else {
                    Gate::Open
                },
                conflicting(self.active@, row@),
                has_peer,
            ),
    {
        if self.started >= self.slots {
            return TaskAction::Stop;
        }
        let gate = if readable {
            board.gates[task]
        } else {
            Gate::Open
        };
        match gate {
            Gate::Needed(ApprovalState::Unset) => return TaskAction::Hold,
            Gate::Needed(ApprovalState::Pending) => return TaskAction::Hold,
            Gate::Needed(ApprovalState::Rejected) => return TaskAction::Fail,
            Gate::Needed(ApprovalState::Approved) => {},
            Gate::Open => {},
        }
        if self.conflicts(row) {
            return TaskAction::Delay;
        }
        if has_peer {
            TaskAction::Dispatch
        } else {
            TaskAction::Spawn
        }
    }

    /// Takes in how a spawn or dispatch went: the task is active and a slot
    /// is taken, or it has failed and what depends on it is skipped.
    pub fn settle(&mut self, board: &mut Board, task: usize, ok: bool)
        requires
            old(self).started < old(self).slots,
            old(board).wf(),
            task < old(board).states@.len(),
        ensures
            final(board).wf(),
            final(board).deps == old(board).deps,
            final(board).scroll == old(board).scroll,
            final(board).max_concurrency == old(board).max_concurrency,
            final(board).gates == old(board).gates,
            final(self).slots == old(self).slots,
            final(self).active == old(self).active,
            ok ==> final(self).started == old(self).started + 1 && final(board).states@ == old(board).states@.update(task as int, TaskState::Active),
            !ok ==> final(self).started == old(self).started && final(board).states@
                == skipped_downstream(
                *old(board),
                old(board).states@.update(task as int, TaskState::Failed),
                task as int,
            ),
    {
        if ok {
            board.states.set(task, TaskState::Active);
            self.started = self.started + 1;
        } else {
            board.fail_inline(task);
        }
    }
}

// ---------------------------------------------------------------------------
// Dispatch to a peer
// ---------------------------------------------------------------------------

/// What a peer is told of a task that it is to run.
#[derive(Debug)]
pub struct ScrollDispatchPayload {
    pub scroll_id: String,
    pub task_id: String,
    pub task_name: String,
    pub prompt: String,
    pub provider: String,
    pub model: String,
    pub cwd: String,
    pub file_patterns: Vec<String>,
}

/// An optional text, empty where there is none.
pub open spec fn or_empty(o: Option<Seq<char>>) -> Seq<char> {
    match o {
        Some(s) => s,
        None => seq![],
    }
}

/// Whether a payload tells of a task.
pub open spec fn payload_tells(p: ScrollDispatchPayload, t: TaskRow) -> bool {
    &&& p.scroll_id@ == t.scroll_id
    &&& p.task_id@ == t.id
    &&& p.task_name@ == t.name
    &&& p.prompt@ == t.prompt
    &&& p.provider@ == or_empty(t.provider)
    &&& p.model@ == or_empty(t.model)
    &&& p.cwd@ == or_empty(t.cwd)
    &&& texts(p.file_patterns@) == t.file_patterns
}

fn text_or_empty(o: &Option<String>) -> (r: String)
    ensures
        r@ == or_empty(opt_text(*o)),
{
    match o {
        Some(s) => s.clone(),
        None => String::new(),
    }
}

/// What a peer is told of a task.
pub fn dispatch_payload(task: &Task) -> (p: ScrollDispatchPayload)
    ensures
        payload_tells(p, task@),
{
    ScrollDispatchPayload {
        scroll_id: task.scroll_id.clone(),
        task_id: task.id.clone(),
        task_name: task.name.clone(),
        prompt: task.prompt.clone(),
        provider: text_or_empty(&task.provider),
        model: text_or_empty(&task.model),
        cwd: text_or_empty(&task.cwd),
        file_patterns: copy_texts(&task.file_patterns),
    }
}

/// Plans the dispatch of a task to a peer. `bound` says whether a registry
/// of peers is there, `peer_id` is the peer's where it is known.
pub fn dispatch_to_peer(
    task: &Task,
    peer_name: &str,
    bound: bool,
    peer_id: Option<String>,
) -> (r: Result<(String, ScrollDispatchPayload), String>)
    ensures
        match r {
            Ok((id, p)) => bound && opt_text(peer_id) == Some(id@) && payload_tells(p, task@),
            Err(e) => (!bound && e@ == "peer_registry_not_bound"@) || (bound && peer_id is None
                && e@ == "peer_not_found: "@ + peer_name@),
        },
{
    if !bound {
        return Err(own("peer_registry_not_bound"));
    }
    match peer_id {
        None => Err(cat("peer_not_found: ", peer_name)),
        Some(id) => Ok((id, dispatch_payload(task))),
    }
}

/// Decides on the request to dispatch one task of a scroll to a peer. `task`
/// is the task of the id asked for, where there is one.
pub fn dispatch_task_request(scroll_id: &str, task: Option<&Task>) -> (r: Result<
    ScrollDispatchPayload,
    &'static str,
>)
    ensures
        match r {
            Ok(p) => task matches Some(t) && t.scroll_id@ == scroll_id@ && payload_tells(p, t@),
            Err(e) => match task {
                None => e@ == "task_not_found"@,
                Some(t) => t.scroll_id@ != scroll_id@ && e@ == "task_scroll_mismatch"@,
            },
        },
{
    match task {
        None => Err("task_not_found"),
        Some(t) => {
            if !crate::text::same(t.scroll_id.as_str(), scroll_id) {
                return Err("task_scroll_mismatch");
            }
            Ok(dispatch_payload(t))
        },
    }
}

// ---------------------------------------------------------------------------
// Laws
// ---------------------------------------------------------------------------

/// However a pass goes, no more tasks are started than the scroll has slots:
/// with those that ran before they stay within the concurrency budget.
pub proof fn pass_within_budget(
    scroll: ScrollState,
    max_concurrency: u32,
    active: nat,
    started: int,
    gate: Gate,
    conflict: bool,
    has_peer: bool,
)
    requires
        started >= 0,
        ({
            let a = task_action(
                free_slots(scroll, max_concurrency, active),
                started,
                gate,
                conflict,
                has_peer,
            );
            a == TaskAction::Spawn || a == TaskAction::Dispatch
        }),
    ensures
        scroll == ScrollState::Active,
        active + started + 1 <= max_concurrency,
{
}

/// A task that needs approval is never started before it is approved.
pub proof fn unapproved_tasks_never_start(
    slots: int,
    started: int,
    approval: ApprovalState,
    conflict: bool,
    has_peer: bool,
)
    requires
        approval != ApprovalState::Approved,
    ensures
        ({
            let a = task_action(slots, started, Gate::Needed(approval), conflict, has_peer);
            a != TaskAction::Spawn && a != TaskAction::Dispatch
        }),
{
}

/// An approved task is let through: it waits for a slot or for a conflicting
/// task at most, and is neither held nor failed again.
pub proof fn approved_tasks_pass(
    slots: int,
    started: int,
    gate: Gate,
    conflict: bool,
    has_peer: bool,
)
    ensures
        ({
            let a = task_action(
                slots,
                started,
                with_approval(gate, ApprovalState::Approved),
                conflict,
                has_peer,
            );
            &&& a != TaskAction::Hold && a != TaskAction::Fail
            &&& started < slots && !conflict ==> a == TaskAction::Spawn || a
                == TaskAction::Dispatch
        }),
{
}

/// A ready task starts exactly where a slot is free, it needs no approval or
/// has it, and it conflicts with nothing that runs; on its peer where it has
/// one, else here. A gate that waits holds it, and a refusal fails it.
pub proof fn ready_tasks_start(
    slots: int,
    started: int,
    gate: Gate,
    conflict: bool,
    has_peer: bool,
)
    ensures
        ({
            let a = task_action(slots, started, gate, conflict, has_peer);
            let clear = gate is Open || gate == Gate::Needed(ApprovalState::Approved);
            &&& a == TaskAction::Stop <==> started >= slots
            &&& a == TaskAction::Spawn <==> started < slots && clear && !conflict && !has_peer
            &&& a == TaskAction::Dispatch <==> started < slots && clear && !conflict && has_peer
            &&& a == TaskAction::Delay <==> started < slots && clear && conflict
            &&& a == TaskAction::Fail <==> started < slots && gate == Gate::Needed(
                ApprovalState::Rejected,
            )
            &&& a == TaskAction::Hold <==> started < slots && (gate == Gate::Needed(
                ApprovalState::Unset,
            ) || gate == Gate::Needed(ApprovalState::Pending))
        }),
{
}

/// An active scroll has as many free slots as its budget exceeds its active
/// tasks, and any other has none.
pub proof fn slots_fill_the_budget(scroll: ScrollState, max_concurrency: u32, active: nat)
    ensures
        scroll == ScrollState::Active && active <= max_concurrency ==> free_slots(
            scroll,
            max_concurrency,
            active,
        ) + active == max_concurrency,
        scroll != ScrollState::Active || active >= max_concurrency ==> free_slots(
            scroll,
            max_concurrency,
            active,
        ) == 0,
{
}

/// Tasks are counted one by one: those in the state.
pub proof fn tasks_are_counted(states: Seq<TaskState>, last: TaskState, s: TaskState)
    ensures
        state_count(seq![], s) == 0,
        state_count(states.push(last), s) == state_count(states, s) + (if last == s {
            1int
        } else {
            0
        }),
{
    assert(states.push(last).drop_last() =~= states);
}

/// A task conflicts with those that were active when the pass began, and with
/// no others.
pub proof fn only_active_tasks_conflict(states: Seq<TaskState>, row: Seq<bool>)
    requires
        row.len() == states.len(),
    ensures
        conflicting(active_flags(states), row) <==> exists|i: int|
            0 <= i < states.len() && #[trigger] states[i] == TaskState::Active && row[i],
{
    let flags = active_flags(states);
    if exists|i: int| 0 <= i < states.len() && #[trigger] states[i] == TaskState::Active && row[i] {
        let i = choose|i: int|
            0 <= i < states.len() && #[trigger] states[i] == TaskState::Active && row[i];
        assert(flags[i]);
    }
    if conflicting(flags, row) {
        let i = choose|i: int| 0 <= i < flags.len() && #[trigger] flags[i] && row[i];
        assert(states[i] == TaskState::Active);
    }
}

/// A peer is told the task as it is stored.
pub proof fn payloads_tell_the_task(p: ScrollDispatchPayload, t: Task)
    requires
        payload_tells(p, t@),
    ensures
        p.scroll_id@ == t.scroll_id@,
        p.task_id@ == t.id@,
        p.task_name@ == t.name@,
        p.prompt@ == t.prompt@,
        texts(p.file_patterns@) == texts(t.file_patterns@),
        t.provider is Some ==> p.provider@ == t.provider->0@,
        t.model is Some ==> p.model@ == t.model->0@,
        t.cwd is Some ==> p.cwd@ == t.cwd->0@,
{
}

} // verus!

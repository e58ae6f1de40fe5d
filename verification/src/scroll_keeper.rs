//! Scroll keeper: lifecycle, DAG scheduling, verification and approval of
//! inscribed scrolls and their tasks.

use crate::text::{copy_opt, copy_texts, opt_text, texts};
use vstd::prelude::*;

pub mod approval;
pub mod board_laws;
pub mod dag;
pub mod dag_laws;
pub mod event_handlers;
pub mod lifecycle;
pub mod scheduling;
pub mod status;
pub mod transitions;
pub mod verification;

verus! {

/// State of a task.
#[derive(Clone, Copy, Debug, PartialEq, Eq, Structural)]
pub enum TaskState {
    Blocked,
    Ready,
    AwaitingApproval,
    Active,
    Complete,
    Failed,
    Skipped,
}

/// State of a scroll.
#[derive(Clone, Copy, Debug, PartialEq, Eq, Structural)]
pub enum ScrollState {
    Inscribed,
    Active,
    Complete,
    Failed,
    Abandoned,
}

/// Where the approval of a gated task stands.
#[derive(Clone, Copy, Debug, PartialEq, Eq, Structural)]
pub enum ApprovalState {
    Unset,
    Pending,
    Approved,
    Rejected,
}

/// What is known of the approval of a task.
#[derive(Clone, Copy, Debug, PartialEq, Eq, Structural)]
pub enum Gate {
    /// No approval is needed, or whether it is could not be read.
    Open,
    /// Approval is needed; this is where it stands.
    Needed(ApprovalState),
}

/// A gate with its approval recorded. One that needs none stays open.
pub open spec fn with_approval(g: Gate, a: ApprovalState) -> Gate {
    match g {
        Gate::Open => Gate::Open,
        Gate::Needed(_) => Gate::Needed(a),
    }
}

impl Gate {
    /// Notes where approval stands.
    pub fn record(self, a: ApprovalState) -> (r: Gate)
        ensures
            r == with_approval(self, a),
    {
        match self {
            Gate::Open => Gate::Open,
            Gate::Needed(_) => Gate::Needed(a),
        }
    }
}

/// Whether a task in this state has ended.
pub open spec fn settled(s: TaskState) -> bool {
    s == TaskState::Complete || s == TaskState::Failed || s == TaskState::Skipped
}

/// The name of a task state.
pub open spec fn task_state_name(s: TaskState) -> Seq<char> {
    match s {
        TaskState::Blocked => "blocked"@,
        TaskState::Ready => "ready"@,
        TaskState::AwaitingApproval => "awaiting_approval"@,
        TaskState::Active => "active"@,
        TaskState::Complete => "complete"@,
        TaskState::Failed => "failed"@,
        TaskState::Skipped => "skipped"@,
    }
}

/// The name of a scroll state.
pub open spec fn scroll_state_name(s: ScrollState) -> Seq<char> {
    match s {
        ScrollState::Inscribed => "inscribed"@,
        ScrollState::Active => "active"@,
        ScrollState::Complete => "complete"@,
        ScrollState::Failed => "failed"@,
        ScrollState::Abandoned => "abandoned"@,
    }
}

impl TaskState {
    /// Whether a task in this state has ended.
    pub fn is_settled(self) -> (r: bool)
        ensures
            r == settled(self),
    {
        match self {
            TaskState::Complete => true,
            TaskState::Failed => true,
            TaskState::Skipped => true,
            _ => false,
        }
    }

    /// The name of the state.
    pub fn as_str(self) -> (r: &'static str)
        ensures
            r@ == task_state_name(self),
    {
        match self {
            TaskState::Blocked => "blocked",
            TaskState::Ready => "ready",
            TaskState::AwaitingApproval => "awaiting_approval",
            TaskState::Active => "active",
            TaskState::Complete => "complete",
            TaskState::Failed => "failed",
            TaskState::Skipped => "skipped",
        }
    }
}

impl ScrollState {
    /// The name of the state.
    pub fn as_str(self) -> (r: &'static str)
        ensures
            r@ == scroll_state_name(self),
    {
        match self {
            ScrollState::Inscribed => "inscribed",
            ScrollState::Active => "active",
            ScrollState::Complete => "complete",
            ScrollState::Failed => "failed",
            ScrollState::Abandoned => "abandoned",
        }
    }
}

/// A scroll.
#[derive(Debug)]
pub struct Scroll {
    pub id: String,
    pub name: String,
    pub state: ScrollState,
    pub source_path: Option<String>,
    pub max_concurrency: u32,
    pub created_at: i64,
    pub updated_at: i64,
}

/// One task of a scroll.
#[derive(Debug)]
pub struct Task {
    pub id: String,
    pub scroll_id: String,
    pub name: String,
    pub prompt: String,
    pub state: TaskState,
    pub agent_id: Option<String>,
    pub provider: Option<String>,
    pub model: Option<String>,
    pub cwd: Option<String>,
    pub file_patterns: Vec<String>,
    pub order_index: u32,
    pub created_at: i64,
    pub updated_at: i64,
    pub peer_name: Option<String>,
    pub verify_rubric: Option<String>,
    pub verify_threshold: Option<String>,
    pub verifier_agent_id: Option<String>,
}

/// What a [`Task`] holds.
#[verifier::ext_equal]
pub ghost struct TaskRow {
    pub id: Seq<char>,
    pub scroll_id: Seq<char>,
    pub name: Seq<char>,
    pub prompt: Seq<char>,
    pub state: TaskState,
    pub agent_id: Option<Seq<char>>,
    pub provider: Option<Seq<char>>,
    pub model: Option<Seq<char>>,
    pub cwd: Option<Seq<char>>,
    pub file_patterns: Seq<Seq<char>>,
    pub order_index: u32,
    pub created_at: i64,
    pub updated_at: i64,
    pub peer_name: Option<Seq<char>>,
    pub verify_rubric: Option<Seq<char>>,
    pub verify_threshold: Option<Seq<char>>,
    pub verifier_agent_id: Option<Seq<char>>,
}

impl View for Task {
    type V = TaskRow;

    open spec fn view(&self) -> TaskRow {
        TaskRow {
            id: self.id@,
            scroll_id: self.scroll_id@,
            name: self.name@,
            prompt: self.prompt@,
            state: self.state,
            agent_id: opt_text(self.agent_id),
            provider: opt_text(self.provider),
            model: opt_text(self.model),
            cwd: opt_text(self.cwd),
            file_patterns: texts(self.file_patterns@),
            order_index: self.order_index,
            created_at: self.created_at,
            updated_at: self.updated_at,
            peer_name: opt_text(self.peer_name),
            verify_rubric: opt_text(self.verify_rubric),
            verify_threshold: opt_text(self.verify_threshold),
            verifier_agent_id: opt_text(self.verifier_agent_id),
        }
    }
}

/// What each task of a list holds.
pub open spec fn task_rows(tasks: Seq<Task>) -> Seq<TaskRow> {
    tasks.map_values(|t: Task| t@)
}

impl Task {
    /// A copy of the task.
    pub fn copy(&self) -> (r: Task)
        ensures
            r@ == self@,
    {
        Task {
            id: self.id.clone(),
            scroll_id: self.scroll_id.clone(),
            name: self.name.clone(),
            prompt: self.prompt.clone(),
            state: self.state,
            agent_id: copy_opt(&self.agent_id),
            provider: copy_opt(&self.provider),
            model: copy_opt(&self.model),
            cwd: copy_opt(&self.cwd),
            file_patterns: copy_texts(&self.file_patterns),
            order_index: self.order_index,
            created_at: self.created_at,
            updated_at: self.updated_at,
            peer_name: copy_opt(&self.peer_name),
            verify_rubric: copy_opt(&self.verify_rubric),
            verify_threshold: copy_opt(&self.verify_threshold),
            verifier_agent_id: copy_opt(&self.verifier_agent_id),
        }
    }
}

/// A scroll that runs: its state, its tasks' states, and what depends on
/// what. Tasks are numbered by their place in the scroll.
#[derive(Debug)]
pub struct Board {
    pub scroll: ScrollState,
    pub max_concurrency: u32,
    pub states: Vec<TaskState>,
    pub deps: Vec<Vec<usize>>,
    /// Where the approval of each task stands.
    pub gates: Vec<Gate>,
}

impl Board {
    /// What holds of every board: each task has its dependencies, which are
    /// tasks, and its gate.
    pub open spec fn wf(&self) -> bool {
        &&& self.states@.len() == self.deps@.len()
        &&& self.states@.len() == self.gates@.len()
        &&& dag::graph_wf(self.deps@)
    }
}

// ---------------------------------------------------------------------------
// Laws
// ---------------------------------------------------------------------------

/// A task that is complete, failed or skipped has ended, and no other has.
pub proof fn three_states_are_settled(s: TaskState)
    ensures
        settled(TaskState::Complete),
        settled(TaskState::Failed),
        settled(TaskState::Skipped),
        s == TaskState::Blocked || s == TaskState::Ready || s == TaskState::AwaitingApproval || s
            == TaskState::Active ==> !settled(s),
{
}

/// Each state of a task, and each of a scroll, has a name of its own.
pub proof fn states_are_told_apart(a: TaskState, b: TaskState, x: ScrollState, y: ScrollState)
    ensures
        task_state_name(a) == task_state_name(b) ==> a == b,
        scroll_state_name(x) == scroll_state_name(y) ==> x == y,
        task_state_name(TaskState::Blocked) == "blocked"@,
        task_state_name(TaskState::Ready) == "ready"@,
        task_state_name(TaskState::Active) == "active"@,
        task_state_name(TaskState::Complete) == "complete"@,
        task_state_name(TaskState::Failed) == "failed"@,
        scroll_state_name(ScrollState::Active) == "active"@,
        scroll_state_name(ScrollState::Complete) == "complete"@,
        scroll_state_name(ScrollState::Failed) == "failed"@,
{
    reveal_strlit("blocked");
    reveal_strlit("ready");
    reveal_strlit("awaiting_approval");
    reveal_strlit("active");
    reveal_strlit("complete");
    reveal_strlit("failed");
    reveal_strlit("skipped");
    reveal_strlit("inscribed");
    reveal_strlit("abandoned");
    assert("blocked"@[0] == 'b');
    assert("ready"@[0] == 'r');
    assert("awaiting_approval"@[1] == 'w');
    assert("active"@[1] == 'c');
    assert("active"@[0] == 'a');
    assert("awaiting_approval"@[0] == 'a');
    assert("complete"@[0] == 'c');
    assert("failed"@[0] == 'f');
    assert("skipped"@[0] == 's');
    assert("inscribed"@[0] == 'i');
    assert("abandoned"@[1] == 'b');
    assert("abandoned"@[0] == 'a');
}

/// An approval is recorded where one is needed, and an open gate stays open.
pub proof fn approvals_are_recorded_where_needed(g: Gate, a: ApprovalState, r: Gate)
    requires
        call_ensures(Gate::record, (g, a), r),
    ensures
        g == Gate::Open ==> r == Gate::Open,
        g is Needed ==> r == Gate::Needed(a),
{
}

/// A copy of a task is the same task in all that it holds.
pub proof fn copies_hold_the_same(t: Task, r: Task)
    requires
        call_ensures(Task::copy, (&t,), r),
    ensures
        r.id@ == t.id@,
        r.scroll_id@ == t.scroll_id@,
        r.name@ == t.name@,
        r.prompt@ == t.prompt@,
        r.state == t.state,
        opt_text(r.agent_id) == opt_text(t.agent_id),
        opt_text(r.provider) == opt_text(t.provider),
        opt_text(r.model) == opt_text(t.model),
        opt_text(r.cwd) == opt_text(t.cwd),
        texts(r.file_patterns@) == texts(t.file_patterns@),
        r.order_index == t.order_index,
        r.created_at == t.created_at,
        r.updated_at == t.updated_at,
        opt_text(r.peer_name) == opt_text(t.peer_name),
        opt_text(r.verify_rubric) == opt_text(t.verify_rubric),
        opt_text(r.verify_threshold) == opt_text(t.verify_threshold),
        opt_text(r.verifier_agent_id) == opt_text(t.verifier_agent_id),
{
    assert(r@.id == t@.id);
    assert(r@.file_patterns == t@.file_patterns);
}

} // verus!

//! Task-state transitions: complete, retry, fail, and the skipping of what
//! lies downstream.

use super::dag::{downstream, has_cycle, mark_downstream, path};
use super::{settled, Board, ScrollState, TaskState};
use crate::decimal::{decimal, to_decimal};
use crate::text::own;
use vstd::prelude::*;
use vstd::string::*;

verus! {

/// Whether every task has ended.
pub open spec fn all_settled(states: Seq<TaskState>) -> bool {
    forall|i: int| 0 <= i < states.len() ==> settled(#[trigger] states[i])
}

/// `states` with every task that depends on `src` skipped.
pub open spec fn skipped_downstream(board: Board, states: Seq<TaskState>, src: int) -> Seq<
    TaskState,
> {
    Seq::new(
        states.len(),
        |i: int|
            if downstream(board.deps@, src, i) {
                TaskState::Skipped
            } else {
                states[i]
            },
    )
}

/// What follows a transition.
#[derive(Clone, Copy, Debug, PartialEq, Eq, Structural)]
pub enum Advance {
    /// Every task has ended; the scroll has the state given.
    Finished(ScrollState),
    /// Tasks are left: schedule.
    Schedule,
}

/// How a scroll whose tasks have all ended ends.
pub open spec fn verdict(states: Seq<TaskState>) -> ScrollState {
    if states.contains(TaskState::Failed) {
        ScrollState::Failed
    } else {
        ScrollState::Complete
    }
}

impl Board {
    /// Whether every task has ended.
    pub fn is_settled(&self) -> (r: bool)
        ensures
            r == all_settled(self.states@),
    {
        let mut i: usize = 0;
        while i < self.states.len()
            invariant
                i <= self.states@.len(),
                forall|k: int| 0 <= k < i ==> settled(#[trigger] self.states@[k]),
            decreases self.states@.len() - i,
        {
            if !self.states[i].is_settled() {
                return false;
            }
            i = i + 1;
        }
        true
    }

    fn any_failed(&self) -> (r: bool)
        ensures
            r == self.states@.contains(TaskState::Failed),
    {
        let mut i: usize = 0;
        while i < self.states.len()
            invariant
                i <= self.states@.len(),
                forall|k: int| 0 <= k < i ==> self.states@[k] != TaskState::Failed,
            decreases self.states@.len() - i,
        {
            if self.states[i] == TaskState::Failed {
                return true;
            }
            i = i + 1;
        }
        false
    }

    /// Skips every task that depends on `src`, directly or through others.
    pub fn skip_downstream(&mut self, src: usize)
        requires
            old(self).wf(),
            src < old(self).states@.len(),
        ensures
            final(self).wf(),
            final(self).deps == old(self).deps,
            final(self).scroll == old(self).scroll,
            final(self).max_concurrency == old(self).max_concurrency,
            final(self).gates == old(self).gates,
            final(self).states@ == skipped_downstream(
                *old(self),
                old(self).states@,
                src as int,
            ),
    {
        let marked = mark_downstream(&self.deps, src);
        let ghost before = self.states@;
        let mut i: usize = 0;
        while i < self.states.len()
            invariant
                i <= self.states@.len(),
                self.states@.len() == before.len(),
                marked@.len() == before.len(),
                self.deps == old(self).deps,
                self.scroll == old(self).scroll,
                self.max_concurrency == old(self).max_concurrency,
                self.gates == old(self).gates,
                old(self).states@ == before,
                forall|k: int|
                    0 <= k < before.len() ==> (#[trigger] marked@[k] <==> downstream(
                        self.deps@,
                        src as int,
                        k,
                    )),
                forall|k: int|
                    0 <= k < before.len() ==> #[trigger] self.states@[k] == (if k < i
                        && marked@[k] {
                        TaskState::Skipped
                    } else {
                        before[k]
                    }),
            decreases self.states@.len() - i,
        {
            if marked[i] {
                self.states.set(i, TaskState::Skipped);
            }
            i = i + 1;
        }
        assert(self.states@ =~= skipped_downstream(*old(self), before, src as int)) by {
            assert forall|k: int| 0 <= k < before.len() implies self.states@[k]
                == skipped_downstream(*old(self), before, src as int)[k] by {
                assert(marked@[k] <==> downstream(self.deps@, src as int, k));
            }
        }
    }

    /// Marks a task complete. Where every task has ended by then the scroll
    /// ends: failed if any task did, complete otherwise.
    pub fn complete_task_and_advance(&mut self, task: usize) -> (r: Advance)
        requires
            old(self).wf(),
            task < old(self).states@.len(),
        ensures
            final(self).wf(),
            final(self).deps == old(self).deps,
            final(self).max_concurrency == old(self).max_concurrency,
            final(self).gates == old(self).gates,
            final(self).states@ == old(self).states@.update(task as int, TaskState::Complete),
            if all_settled(final(self).states@) {
                &&& r == Advance::Finished(verdict(final(self).states@))
                &&& final(self).scroll == verdict(final(self).states@)
            } else {
                r == Advance::Schedule && final(self).scroll == old(self).scroll
            },
    {
        self.states.set(task, TaskState::Complete);
        if self.is_settled() {
            let end = if self.any_failed() {
                ScrollState::Failed
            } else {
                ScrollState::Complete
            };
            self.scroll = end;
            Advance::Finished(end)
        } else {
            Advance::Schedule
        }
    }

    /// Marks a task failed and skips everything downstream. Where every task
    /// has ended by then the scroll has failed.
    pub fn fail_task_and_advance(&mut self, task: usize) -> (r: Advance)
        requires
            old(self).wf(),
            task < old(self).states@.len(),
        ensures
            final(self).wf(),
            final(self).deps == old(self).deps,
            final(self).max_concurrency == old(self).max_concurrency,
            final(self).gates == old(self).gates,
            final(self).states@ == skipped_downstream(
                *old(self),
                old(self).states@.update(task as int, TaskState::Failed),
                task as int,
            ),
            if all_settled(final(self).states@) {
                r == Advance::Finished(ScrollState::Failed) && final(self).scroll
                    == ScrollState::Failed
            } else {
                r == Advance::Schedule && final(self).scroll == old(self).scroll
            },
    {
        self.fail_inline(task);
        if self.is_settled() {
            self.scroll = ScrollState::Failed;
            Advance::Finished(ScrollState::Failed)
        } else {
            Advance::Schedule
        }
    }

    /// Marks a task failed and skips everything downstream, without a look
    /// at whether the scroll has ended.
    pub fn fail_inline(&mut self, task: usize)
        requires
            old(self).wf(),
            task < old(self).states@.len(),
        ensures
            final(self).wf(),
            final(self).deps == old(self).deps,
            final(self).scroll == old(self).scroll,
            final(self).max_concurrency == old(self).max_concurrency,
            final(self).gates == old(self).gates,
            final(self).states@ == skipped_downstream(
                *old(self),
                old(self).states@.update(task as int, TaskState::Failed),
                task as int,
            ),
    {
        self.states.set(task, TaskState::Failed);
        let ghost marked = *self;
        self.skip_downstream(task);
        assert(self.states@ =~= skipped_downstream(
            *old(self),
            old(self).states@.update(task as int, TaskState::Failed),
            task as int,
        ));
    }
}

// ---------------------------------------------------------------------------
// Retries
// ---------------------------------------------------------------------------

/// What follows a failed run of a task.
#[derive(Debug)]
pub enum RetryDecision {
    /// The task is run again by a fresh agent, after the notice given.
    Retry { notice: String },
    /// No retry is left: the task fails.
    Fail,
}

/// The notice of a retry.
pub open spec fn retry_notice(
    scroll_id: Seq<char>,
    task_name: Seq<char>,
    attempt: u32,
    max: u32,
) -> Seq<char> {
    "retrying scroll "@ + scroll_id + " task '"@ + task_name + "' (attempt "@ + decimal(
        attempt as nat,
    ) + "/"@ + decimal(max as nat) + ")"@
}

/// Whether a retry is left: fewer were made than allowed.
pub fn retry_left(max: u32, count: u32) -> (r: bool)
    ensures
        r == (count < max),
{
    count < max
}

/// Decides on a failed run of a task of which `count` of `max` retries were
/// made. `attempt` is the number of the retry as it was recorded. A retry
/// makes the task ready again; an approved gate stays approved.
pub fn retry_or_fail(
    scroll_id: &str,
    task_name: &str,
    max: u32,
    count: u32,
    attempt: u32,
) -> (r: RetryDecision)
    ensures
        match r {
            RetryDecision::Retry { notice } => count < max && notice@ == retry_notice(
                scroll_id@,
                task_name@,
                attempt,
                max,
            ),
            RetryDecision::Fail => count >= max,
        },
{
    if count >= max {
        return RetryDecision::Fail;
    }
    let mut notice = own("retrying scroll ");
    notice.append(scroll_id);
    notice.append(" task '");
    notice.append(task_name);
    notice.append("' (attempt ");
    notice.append(to_decimal(attempt as u64).as_str());
    notice.append("/");
    notice.append(to_decimal(max as u64).as_str());
    notice.append(")");
    RetryDecision::Retry { notice }
}

impl Board {
    /// Makes a task ready again, for another run. An approved gate stays
    /// approved, so there is no second approval.
    pub fn retry(&mut self, task: usize)
        requires
            old(self).wf(),
            task < old(self).states@.len(),
        ensures
            final(self).wf(),
            final(self).deps == old(self).deps,
            final(self).scroll == old(self).scroll,
            final(self).max_concurrency == old(self).max_concurrency,
            final(self).gates == old(self).gates,
            final(self).states@ == old(self).states@.update(task as int, TaskState::Ready),
    {
        self.states.set(task, TaskState::Ready);
    }
}

// ---------------------------------------------------------------------------
// Laws
// ---------------------------------------------------------------------------

proof fn lemma_downstream_path(adj: Seq<Vec<usize>>, src: int, i: int, n: nat) -> (p: Seq<int>)
    requires
        super::dag::downstream_in(adj, src, i, n),
    ensures
        path(adj, p),
        p.len() >= 2,
        p[0] == i,
        p.last() == src,
    decreases n,
{
    if super::dag::edge(adj, i, src) {
        let p = seq![i, src];
        assert forall|k: int| 0 <= k < p.len() - 1 implies super::dag::edge(
            adj,
            #[trigger] p[k],
            p[k + 1],
        ) by {
            assert(k == 0);
        }
        p
    } else {
        let d = choose|d: int| #[trigger]
            super::dag::edge(adj, i, d) && super::dag::downstream_in(
                adj,
                src,
                d,
                (n - 1) as nat,
            );
        let q = lemma_downstream_path(adj, src, d, (n - 1) as nat);
        let p = seq![i] + q;
        assert forall|k: int| 0 <= k < p.len() - 1 implies super::dag::edge(
            adj,
            #[trigger] p[k],
            p[k + 1],
        ) by {
            if k > 0 {
                assert(p[k] == q[k - 1]);
                assert(p[k + 1] == q[k - 1 + 1]);
                assert(super::dag::edge(adj, q[k - 1], q[k - 1 + 1]));
            }
        }
        p
    }
}

/// Failing a task of a graph without cycles leaves that task failed, skips
/// exactly what depends on it, and touches no other task.
pub proof fn failure_is_contained(board: Board, states: Seq<TaskState>, task: int, i: int)
    requires
        board.wf(),
        states.len() == board.deps@.len(),
        !has_cycle(board.deps@),
        0 <= task < states.len(),
        0 <= i < states.len(),
    ensures
        ({
            let after = skipped_downstream(
                board,
                states.update(task, TaskState::Failed),
                task,
            );
            &&& after[task] == TaskState::Failed
            &&& downstream(board.deps@, task, i) ==> after[i] == TaskState::Skipped
            &&& i != task && !downstream(board.deps@, task, i) ==> after[i] == states[i]
        }),
{
    if downstream(board.deps@, task, task) {
        let n = choose|n: nat| #[trigger]
            super::dag::downstream_in(board.deps@, task, task, n);
        let p = lemma_downstream_path(board.deps@, task, task, n);
        assert(has_cycle(board.deps@));
    }
}

/// A scroll whose last task completes ends complete exactly when no task
/// failed.
pub proof fn verdict_is_exact(states: Seq<TaskState>)
    requires
        all_settled(states),
    ensures
        verdict(states) == ScrollState::Complete <==> forall|i: int|
            0 <= i < states.len() ==> #[trigger] states[i] == TaskState::Complete || states[i]
                == TaskState::Skipped,
{
    if states.contains(TaskState::Failed) {
        let k = choose|k: int| 0 <= k < states.len() && states[k] == TaskState::Failed;
        assert(states[k] == TaskState::Failed);
    } else {
        assert forall|i: int| 0 <= i < states.len() implies #[trigger] states[i]
            == TaskState::Complete || states[i] == TaskState::Skipped by {
            assert(settled(states[i]));
        }
    }
}

/// What depends directly on a failed task is skipped with it, and so is what
/// depends on anything that is skipped; what depends on neither keeps its
/// state.
pub proof fn failure_spreads_along_dependencies(
    board: Board,
    states: Seq<TaskState>,
    src: int,
    i: int,
)
    requires
        board.wf(),
        states.len() == board.deps@.len(),
        0 <= src < states.len(),
        0 <= i < states.len(),
    ensures
        ({
            let after = skipped_downstream(board, states, src);
            let on = |d: int|
                exists|k: int| 0 <= k < board.deps@[i]@.len() && #[trigger] board.deps@[i]@[k] == d;
            &&& after.len() == states.len()
            &&& on(src) ==> after[i] == TaskState::Skipped
            &&& forall|d: int|
                0 <= d < states.len() && on(d) && #[trigger] downstream(board.deps@, src, d)
                    ==> after[i] == TaskState::Skipped
            &&& (forall|d: int|
                0 <= d < states.len() && #[trigger] on(d) ==> d != src && !downstream(
                    board.deps@,
                    src,
                    d,
                )) ==> after[i] == states[i]
        }),
{
    let adj = board.deps@;
    let after = skipped_downstream(board, states, src);
    let on = |d: int|
        exists|k: int| 0 <= k < board.deps@[i]@.len() && #[trigger] board.deps@[i]@[k] == d;
    assert forall|d: int| 0 <= d < states.len() implies #[trigger] on(d) == super::dag::edge(
        adj,
        i,
        d,
    ) by {}
    if on(src) {
        assert(super::dag::edge(adj, i, src));
        assert(super::dag::downstream_in(adj, src, i, 1));
    }
    assert forall|d: int|
        0 <= d < states.len() && on(d) && #[trigger] downstream(adj, src, d) implies after[i]
        == TaskState::Skipped by {
        let n = choose|n: nat| #[trigger] super::dag::downstream_in(adj, src, d, n);
        assert(super::dag::edge(adj, i, d) && super::dag::downstream_in(adj, src, d, n));
        assert(super::dag::downstream_in(adj, src, i, n + 1));
    }
    if downstream(adj, src, i) {
        let n = choose|n: nat| #[trigger] super::dag::downstream_in(adj, src, i, n);
        if super::dag::edge(adj, i, src) {
            assert(on(src));
        } else {
            let d = choose|d: int| #[trigger]
                super::dag::edge(adj, i, d) && super::dag::downstream_in(
                    adj,
                    src,
                    d,
                    (n - 1) as nat,
                );
            assert(on(d));
            assert(downstream(adj, src, d));
        }
    }
}

/// A task has ended exactly where it is complete, failed or skipped, and a
/// scroll with a failed task ends failed.
pub proof fn ends_are_told_apart(states: Seq<TaskState>, s: TaskState)
    ensures
        settled(s) <==> s == TaskState::Complete || s == TaskState::Failed || s
            == TaskState::Skipped,
        states.contains(TaskState::Failed) ==> verdict(states) == ScrollState::Failed,
        !states.contains(TaskState::Failed) ==> verdict(states) == ScrollState::Complete,
{
}

} // verus!

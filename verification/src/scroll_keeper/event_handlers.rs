//! What a change of state of an agent means for the tasks of scrolls.

use super::transitions::skipped_downstream;
use super::{Board, TaskState};
use crate::types::{terminal, AgentState, RestartPolicy};
use vstd::prelude::*;

verus! {

/// Which of an agent's events concern scrolls.
#[derive(Clone, Copy, Debug, PartialEq, Eq, Structural)]
pub enum AgentNews {
    Completed,
    Failed,
    Nothing,
}

/// What a new state of an agent is to scrolls.
pub fn agent_news(new_state: AgentState) -> (r: AgentNews)
    ensures
        r == (if new_state == AgentState::Complete {
            AgentNews::Completed
        } else if new_state == AgentState::Failed || new_state == AgentState::Banished {
            AgentNews::Failed
        } else {
            AgentNews::Nothing
        }),
{
    match new_state {
        AgentState::Complete => AgentNews::Completed,
        AgentState::Failed => AgentNews::Failed,
        AgentState::Banished => AgentNews::Failed,
        AgentState::Restarting => AgentNews::Nothing,
        AgentState::Queued => AgentNews::Nothing,
        AgentState::Summoning => AgentNews::Nothing,
        AgentState::Active => AgentNews::Nothing,
        AgentState::Dormant => AgentNews::Nothing,
    }
}

/// The outcome of looking for the task of an agent.
#[derive(Clone, Copy, Debug, PartialEq, Eq, Structural)]
pub enum Lookup {
    Found,
    Absent,
    Error,
}

/// What follows the completion of an agent.
#[derive(Clone, Copy, Debug, PartialEq, Eq, Structural)]
pub enum CompletionAction {
    /// Read the verdict that the agent reached on a task's worker.
    FinishVerification,
    /// Have the worker's result verified before its task is complete.
    StartVerification,
    /// The task is complete.
    Complete,
    /// Nothing is to be done.
    Ignore,
}

/// What follows the completion of an agent. A task that it verifies comes
/// before one that it works on.
pub open spec fn completion_action(
    verifies: Lookup,
    works: Lookup,
    has_rubric: bool,
    has_verifier: bool,
) -> CompletionAction {
    if verifies == Lookup::Found {
        CompletionAction::FinishVerification
    } else if verifies == Lookup::Error || works != Lookup::Found {
        CompletionAction::Ignore
    } else if has_rubric {
        if has_verifier {
            CompletionAction::Ignore
        } else {
            CompletionAction::StartVerification
        }
    } else {
        CompletionAction::Complete
    }
}

/// What follows the completion of an agent: `verifies` and `works` say
/// whether it verifies, or works on, some task; the rest is of the task that
/// it works on.
pub fn handle_agent_completion(
    verifies: Lookup,
    works: Lookup,
    has_rubric: bool,
    has_verifier: bool,
) -> (r: CompletionAction)
    ensures
        r == completion_action(verifies, works, has_rubric, has_verifier),
{
    match verifies {
        Lookup::Found => return CompletionAction::FinishVerification,
        Lookup::Error => return CompletionAction::Ignore,
        Lookup::Absent => {},
    }
    if works != Lookup::Found {
        return CompletionAction::Ignore;
    }
    if has_rubric {
        if has_verifier {
            CompletionAction::Ignore
        } else {
            CompletionAction::StartVerification
        }
    } else {
        CompletionAction::Complete
    }
}

/// What follows the failure of an agent.
#[derive(Clone, Copy, Debug, PartialEq, Eq, Structural)]
pub enum FailureAction {
    /// The supervisor decides first.
    Defer,
    /// The task that the agent verified is retried or fails.
    RetryVerified,
    /// The task that the agent worked on is retried or fails.
    RetryWorked,
    /// Nothing is to be done.
    Ignore,
}

/// What follows the failure of an agent.
pub open spec fn failure_action(
    policy: Option<RestartPolicy>,
    verifies: Lookup,
    works: Lookup,
) -> FailureAction {
    if policy == Some(RestartPolicy::OnFailure) {
        FailureAction::Defer
    } else if verifies == Lookup::Found {
        FailureAction::RetryVerified
    } else if works == Lookup::Found {
        FailureAction::RetryWorked
    } else {
        FailureAction::Ignore
    }
}

/// What follows the failure of an agent. `policy` is its restart policy,
/// where one could be read.
pub fn handle_agent_failure(
    policy: Option<RestartPolicy>,
    verifies: Lookup,
    works: Lookup,
) -> (r: FailureAction)
    ensures
        r == failure_action(policy, verifies, works),
{
    match policy {
        Some(RestartPolicy::OnFailure) => return FailureAction::Defer,
        Some(RestartPolicy::Never) => {},
        None => {},
    }
    if verifies == Lookup::Found {
        return FailureAction::RetryVerified;
    }
    if works == Lookup::Found {
        return FailureAction::RetryWorked;
    }
    FailureAction::Ignore
}

/// The state of a task whose remote agent ended.
pub open spec fn mirrored(new_state: AgentState) -> Option<TaskState> {
    if new_state == AgentState::Complete {
        Some(TaskState::Complete)
    } else if terminal(new_state) {
        Some(TaskState::Failed)
    } else {
        None
    }
}

impl Board {
    /// Takes in the state of an agent of a peer that runs a task. Only a
    /// terminal state counts: it is mirrored on the task, and a failure skips
    /// what is downstream. Returns what the dispatch is recorded as, and
    /// scheduling follows.
    pub fn handle_remote_state_change(&mut self, task: usize, new_state: AgentState) -> (r: Option<
        &'static str,
    >)
        requires
            old(self).wf(),
            task < old(self).states@.len(),
        ensures
            final(self).wf(),
            final(self).deps == old(self).deps,
            final(self).scroll == old(self).scroll,
            final(self).max_concurrency == old(self).max_concurrency,
            final(self).gates == old(self).gates,
            match mirrored(new_state) {
                None => r is None && final(self).states == old(self).states,
                Some(TaskState::Complete) => (r matches Some(s) && s@ == "complete"@) && final(self).states@ == old(self).states@.update(task as int, TaskState::Complete),
                Some(_) => (r matches Some(s) && s@ == "failed"@) && final(self).states@
                    == skipped_downstream(
                    *old(self),
                    old(self).states@.update(task as int, TaskState::Failed),
                    task as int,
                ),
            },
    {
        match new_state {
            AgentState::Complete => {
                self.states.set(task, TaskState::Complete);
                Some("complete")
            },
            AgentState::Failed => {
                self.fail_inline(task);
                Some("failed")
            },
            AgentState::Banished => {
                self.fail_inline(task);
                Some("failed")
            },
            _ => None,
        }
    }
}

// ---------------------------------------------------------------------------
// Laws
// ---------------------------------------------------------------------------

/// A worker's completion completes its task only where the task has no
/// rubric; with one it is verified first, and once. A verifier's completion is
/// read as its verdict.
pub proof fn rubrics_come_before_completion(works: Lookup, has_rubric: bool, has_verifier: bool)
    ensures
        completion_action(Lookup::Found, works, has_rubric, has_verifier)
            == CompletionAction::FinishVerification,
        completion_action(Lookup::Absent, Lookup::Found, false, has_verifier)
            == CompletionAction::Complete,
        completion_action(Lookup::Absent, Lookup::Found, true, false)
            == CompletionAction::StartVerification,
        completion_action(Lookup::Absent, Lookup::Found, true, true) == CompletionAction::Ignore,
        works != Lookup::Found ==> completion_action(
            Lookup::Absent,
            works,
            has_rubric,
            has_verifier,
        ) == CompletionAction::Ignore,
        completion_action(Lookup::Error, works, has_rubric, has_verifier)
            == CompletionAction::Ignore,
{
}

/// The failure of an agent that its policy restarts is left to the supervisor;
/// any other fails or retries the task that the agent verified, or else the
/// one that it worked on.
pub proof fn supervised_failures_are_deferred(
    policy: Option<RestartPolicy>,
    verifies: Lookup,
    works: Lookup,
)
    ensures
        policy == Some(RestartPolicy::OnFailure) <==> failure_action(policy, verifies, works)
            == FailureAction::Defer,
        policy != Some(RestartPolicy::OnFailure) && verifies == Lookup::Found ==> failure_action(
            policy,
            verifies,
            works,
        ) == FailureAction::RetryVerified,
        policy != Some(RestartPolicy::OnFailure) && verifies != Lookup::Found && works
            == Lookup::Found ==> failure_action(policy, verifies, works)
            == FailureAction::RetryWorked,
        policy != Some(RestartPolicy::OnFailure) && verifies != Lookup::Found && works
            != Lookup::Found ==> failure_action(policy, verifies, works) == FailureAction::Ignore,
{
}

/// Only the end of a remote agent settles its task: a completion completes it,
/// a failure or a banishment fails it.
pub proof fn only_remote_ends_count(s: AgentState)
    ensures
        mirrored(s) == Some(TaskState::Complete) <==> s == AgentState::Complete,
        mirrored(s) == Some(TaskState::Failed) <==> s == AgentState::Failed || s
            == AgentState::Banished,
        mirrored(s) is None <==> s == AgentState::Queued || s == AgentState::Summoning || s
            == AgentState::Active || s == AgentState::Dormant || s == AgentState::Restarting,
{
}

} // verus!

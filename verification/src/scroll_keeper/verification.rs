//! Verification: an evaluator scores the work of a task's agent against the
//! task's rubric, and the task is settled on the verdict.

use super::{Task, TaskRow};
use crate::text::{cat, copy_opt, opt_text, own};
use vstd::prelude::*;

verus! {

/// What follows the end of an evaluator.
#[derive(Clone, Copy, Debug, PartialEq, Eq, Structural)]
pub enum VerdictAction {
    /// The score reaches the threshold: the task is complete.
    Complete,
    /// It does not: the task is retried or fails.
    Retry,
    /// There is no usable judgement: the task fails.
    Fail,
}

/// What a judgement means. A missing or unusable one counts against the task:
/// silence never lets it through.
pub open spec fn verdict_action(passed: Option<bool>) -> VerdictAction {
    match passed {
        Some(true) => VerdictAction::Complete,
        Some(false) => VerdictAction::Retry,
        None => VerdictAction::Fail,
    }
}

/// A usable verdict of an evaluator.
#[derive(Debug)]
pub struct Verdict {
    /// Whether the score reaches the task's threshold.
    pub passed: bool,
    pub verdict: Option<String>,
    pub rationale: Option<String>,
}

/// A verdict to record. The score is recorded with it.
#[derive(Debug)]
pub struct EvalRecord {
    pub target_id: String,
    pub evaluator_id: String,
    pub verdict: Option<String>,
    pub rationale: Option<String>,
}

/// How a verification ends.
#[derive(Debug)]
pub struct Settlement {
    pub action: VerdictAction,
    /// What is recorded, if anything is.
    pub record: Option<EvalRecord>,
}

/// Whether the score of a verdict reaches the threshold, where there is one.
pub open spec fn passes(v: Option<Verdict>) -> Option<bool> {
    match v {
        Some(v) => Some(v.passed),
        None => None,
    }
}

/// The agent that a verdict is recorded for: the task's worker, or the task
/// itself where it has none.
pub open spec fn verdict_target(t: TaskRow) -> Seq<char> {
    match t.agent_id {
        Some(id) => id,
        None => t.id,
    }
}

/// Whether a record is that of a verdict of `evaluator` on a task.
pub open spec fn records(r: EvalRecord, t: TaskRow, evaluator: Seq<char>, v: Verdict) -> bool {
    &&& r.target_id@ == verdict_target(t)
    &&& r.evaluator_id@ == evaluator
    &&& opt_text(r.verdict) == opt_text(v.verdict)
    &&& opt_text(r.rationale) == opt_text(v.rationale)
}

/// Whether a settlement is the one that a verdict on a task leads to: the
/// action, and a record exactly where there is a usable verdict.
pub open spec fn settles(s: Settlement, t: TaskRow, evaluator: Seq<char>, v: Option<Verdict>) -> bool {
    &&& s.action == verdict_action(passes(v))
    &&& match v {
        Some(v) => s.record is Some && records(s.record->0, t, evaluator, v),
        None => s.record is None,
    }
}

/// Settles a task on the verdict of its evaluator, where there is a usable
/// one. Without one the task fails, and nothing is recorded.
pub fn finish_verification(task: &Task, evaluator_id: &str, verdict: &Option<Verdict>) -> (r:
    Settlement)
    ensures
        settles(r, task@, evaluator_id@, *verdict),
{
    match verdict {
        None => Settlement { action: VerdictAction::Fail, record: None },
        Some(v) => {
            let record = EvalRecord {
                target_id: eval_target(task),
                evaluator_id: own(evaluator_id),
                verdict: copy_opt(&v.verdict),
                rationale: copy_opt(&v.rationale),
            };
            let action = if v.passed {
                VerdictAction::Complete
            } else {
                VerdictAction::Retry
            };
            Settlement { action, record: Some(record) }
        },
    }
}

/// The agent that a verdict is recorded for.
pub fn eval_target(task: &Task) -> (r: String)
    ensures
        r@ == verdict_target(task@),
{
    match &task.agent_id {
        Some(id) => id.clone(),
        None => task.id.clone(),
    }
}

/// The name of the agent that verifies a task.
pub fn verifier_name(task: &Task) -> (r: String)
    ensures
        r@ == "verify:"@ + task@.name,
{
    cat("verify:", task.name.as_str())
}

/// Whether an evaluator that was asked for is in place: it was summoned, and
/// the task knows of it. Otherwise the task fails rather than hangs.
pub fn start_verification(summoned: bool, recorded: bool) -> (in_place: bool)
    ensures
        in_place == (summoned && recorded),
{
    summoned && recorded
}

/// Only a verdict that reaches the threshold completes a task.
pub proof fn gate_never_passes_in_silence(
    s: Settlement,
    t: TaskRow,
    evaluator: Seq<char>,
    v: Option<Verdict>,
)
    requires
        settles(s, t, evaluator, v),
    ensures
        s.action == VerdictAction::Complete <==> passes(v) == Some(true),
{
}

/// A task fails outright exactly where there is no usable verdict, and just
/// then nothing is recorded.
pub proof fn nothing_recorded_without_verdict(
    s: Settlement,
    t: TaskRow,
    evaluator: Seq<char>,
    v: Option<Verdict>,
)
    requires
        settles(s, t, evaluator, v),
    ensures
        s.action == VerdictAction::Fail <==> v is None,
        s.record is None <==> v is None,
{
}

/// A verdict that reaches the threshold completes the task, one that does not
/// sends it back, and without a verdict it fails. What the evaluator said is
/// recorded for the task's worker, or for the task where it has none.
pub proof fn verdicts_settle_tasks(
    task: Task,
    evaluator: &str,
    verdict: Option<Verdict>,
    s: Settlement,
)
    requires
        call_ensures(finish_verification, (&task, evaluator, &verdict), s),
    ensures
        verdict is None ==> s.action == VerdictAction::Fail && s.record is None,
        verdict matches Some(v) ==> {
            &&& v.passed ==> s.action == VerdictAction::Complete
            &&& !v.passed ==> s.action == VerdictAction::Retry
            &&& s.record matches Some(r) && r.evaluator_id@ == evaluator@ && opt_text(r.verdict)
                == opt_text(v.verdict) && opt_text(r.rationale) == opt_text(v.rationale) && (
            task.agent_id matches Some(id) ==> r.target_id@ == id@) && (task.agent_id is None
                ==> r.target_id@ == task.id@)
        },
{
}

/// A verifier is named for its task, and is in place once it was summoned and
/// the task knows of it.
pub proof fn verifiers_are_in_place(
    task: Task,
    name: String,
    summoned: bool,
    recorded: bool,
    in_place: bool,
)
    requires
        call_ensures(verifier_name, (&task,), name),
        call_ensures(start_verification, (summoned, recorded), in_place),
    ensures
        name@ == "verify:"@ + task.name@,
        in_place <==> summoned && recorded,
{
}

} // verus!

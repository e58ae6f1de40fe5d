//! Which documents are scrolls, what is said of those that are not, and what
//! those that are hold.

use crate::scroll_parser::{
    accept_judged, accepted, accepted_iff_well_formed, fault, fault_message, names, quoted_list,
    tasks_view, threshold_fault, Doc, DocView, Judgement, ScrollError, ScrollFault, ScrollSpec,
};
use crate::text::{opt_text, texts};
use vstd::prelude::*;

verus! {

/// A document with a name and tasks is a scroll exactly where every task has
/// a text and depends only on other tasks that are there.
pub proof fn whole_documents_are_scrolls(d: DocView)
    requires
        d.scroll_name is Some,
        d.scroll_name->0.len() > 0,
        d.tasks.len() > 0,
    ensures
        fault(d) is None <==> (forall|i: int|
            0 <= i < d.tasks.len() ==> (#[trigger] d.tasks[i]).prompt.len() > 0 && (forall|j: int|
                0 <= j < d.tasks[i].depends_on.len() ==> (#[trigger] d.tasks[i].depends_on[j])
                    != d.tasks[i].name && exists|k: int|
                    0 <= k < d.tasks.len() && (#[trigger] d.tasks[k]).name
                        == d.tasks[i].depends_on[j])),
{
    accepted_iff_well_formed(d);
    let all = names(d.tasks);
    assert(all.len() == d.tasks.len());
    assert forall|s: Seq<char>| all.contains(s) <==> exists|k: int|
        0 <= k < d.tasks.len() && (#[trigger] d.tasks[k]).name == s by {
        if all.contains(s) {
            let k = choose|k: int| 0 <= k < all.len() && all[k] == s;
            assert(d.tasks[k].name == s);
        }
        if exists|k: int| 0 <= k < d.tasks.len() && (#[trigger] d.tasks[k]).name == s {
            let k = choose|k: int| 0 <= k < d.tasks.len() && (#[trigger] d.tasks[k]).name == s;
            assert(all[k] == s);
        }
    }
    if fault(d) is None {
        assert forall|i: int, j: int|
            0 <= i < d.tasks.len() && 0 <= j < d.tasks[i].depends_on.len() implies (
        #[trigger] d.tasks[i].depends_on[j]) != d.tasks[i].name && exists|k: int|
            0 <= k < d.tasks.len() && (#[trigger] d.tasks[k]).name == d.tasks[i].depends_on[j] by {
            assert(all.contains(d.tasks[i].depends_on[j]));
        }
    }
}

/// An accepted document becomes a scroll with its name, its workspace and its
/// tasks, each with its own text.
pub proof fn accepted_documents_are_kept(
    doc: Doc,
    judged: Vec<Judgement>,
    spec: ScrollSpec,
    i: int,
)
    requires
        judged@.len() == doc.thresholds@.len(),
        call_ensures(accept_judged, (doc, &judged), Ok(spec)),
        0 <= i < doc.tasks@.len(),
    ensures
        doc.scroll_name matches Some(n) && spec.name@ == n@,
        opt_text(spec.workspace) == opt_text(doc.workspace),
        opt_text(spec.workspace_repo) == opt_text(doc.workspace_repo),
        opt_text(spec.workspace_branch) == opt_text(doc.workspace_branch),
        spec.tasks@.len() == doc.tasks@.len(),
        spec.tasks@[i].name@ == doc.tasks@[i].name@,
        spec.tasks@[i].prompt@ == doc.tasks@[i].prompt@,
        opt_text(spec.tasks@[i].provider) == opt_text(doc.tasks@[i].provider),
        opt_text(spec.tasks@[i].model) == opt_text(doc.tasks@[i].model),
        opt_text(spec.tasks@[i].cwd) == opt_text(doc.tasks@[i].cwd),
        texts(spec.tasks@[i].depends_on@) == texts(doc.tasks@[i].depends_on@),
        texts(spec.tasks@[i].file_patterns@) == texts(doc.tasks@[i].file_patterns@),
{
    let a = tasks_view(spec.tasks@);
    let b = tasks_view(doc.tasks@);
    assert(a == doc@.tasks);
    assert(b == doc@.tasks);
    assert(a.len() == spec.tasks@.len());
    assert(b.len() == doc.tasks@.len());
    assert(a[i] == spec.tasks@[i]@);
    assert(b[i] == doc.tasks@[i]@);
}

/// The first threshold that is no number between 0 and 1 is what a document
/// is refused for, before anything else, with the task that it is of.
pub proof fn bad_thresholds_are_refused(
    d: DocView,
    judged: Seq<Judgement>,
    k: int,
    r: Result<ScrollSpec, ScrollError>,
)
    requires
        judged.len() == d.thresholds.len(),
        0 <= k < judged.len(),
        !(judged[k] is Within),
        forall|j: int| 0 <= j < k ==> (#[trigger] judged[j]) is Within,
        accepted(d, judged, r),
    ensures
        r is Err,
        judged[k] is NotANumber ==> r->Err_0@ == (ScrollFault::ThresholdNotANumber {
            task: d.thresholds[k].0,
            value: d.thresholds[k].1,
        }),
        judged[k] matches Judgement::OutOfRange { shown } ==> r->Err_0@ == (
        ScrollFault::ThresholdOutOfRange { task: d.thresholds[k].0, shown: shown@ }),
{
    lemma_threshold(d.thresholds, judged, 0, k);
}

proof fn lemma_threshold(
    lines: Seq<(Seq<char>, Seq<char>)>,
    judged: Seq<Judgement>,
    i: int,
    k: int,
)
    requires
        judged.len() == lines.len(),
        0 <= i <= k < judged.len(),
        !(judged[k] is Within),
        forall|j: int| 0 <= j < k ==> (#[trigger] judged[j]) is Within,
    ensures
        threshold_fault(lines, judged, i) == threshold_fault(lines, judged, k),
        threshold_fault(lines, judged, k) is Some,
        judged[k] is NotANumber ==> threshold_fault(lines, judged, k) == Some(
            ScrollFault::ThresholdNotANumber { task: lines[k].0, value: lines[k].1 },
        ),
        judged[k] matches Judgement::OutOfRange { shown } ==> threshold_fault(lines, judged, k)
            == Some(ScrollFault::ThresholdOutOfRange { task: lines[k].0, shown: shown@ }),
    decreases k - i,
{
    if i < k {
        lemma_threshold(lines, judged, i + 1, k);
    }
}

/// What is said of a document names the task and what is wrong with it.
pub proof fn messages_name_the_task(task: Seq<char>, other: Seq<char>, all: Seq<Seq<char>>)
    ensures
        fault_message(ScrollFault::MissingHeading)
            == "Spec must start with a '# Scroll: <name>' heading"@,
        fault_message(ScrollFault::EmptyName) == "Scroll name cannot be empty"@,
        fault_message(ScrollFault::NoTasks)
            == "Scroll must contain at least one '## Task:' section"@,
        fault_message(ScrollFault::NoTaskText { task }) == "Task '"@ + task
            + "' has no task text. Add task description after the metadata lines."@,
        fault_message(ScrollFault::SelfDependency { task }) == "Task '"@ + task
            + "' cannot depend on itself"@,
        fault_message(
            ScrollFault::UnknownDependency { task, dependency: other, available: all },
        ) == "Task '"@ + task + "' depends on '"@ + other + "' which doesn't exist. Available: "@
            + quoted_list(all),
        fault_message(ScrollFault::ThresholdNotANumber { task, value: other }) == "Task '"@ + task
            + "': verify_threshold '"@ + other + "' is not a number between 0.0 and 1.0"@,
        fault_message(ScrollFault::ThresholdOutOfRange { task, shown: other }) == "Task '"@ + task
            + "': verify_threshold "@ + other + " is out of range (expected 0.0-1.0)"@,
{
}

} // verus!

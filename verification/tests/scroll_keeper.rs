use grimoire::scroll_keeper::approval::resolve_task_in_scroll;
use grimoire::scroll_keeper::dag::{detect_all_conflicts, mark_downstream, validate_dag};
use grimoire::scroll_keeper::event_handlers::{
    agent_news, handle_agent_completion, handle_agent_failure, AgentNews, CompletionAction,
    FailureAction, Lookup,
};
use grimoire::scroll_keeper::lifecycle::inscribe;
use grimoire::scroll_keeper::scheduling::{
    dispatch_payload, dispatch_task_request, dispatch_to_peer, TaskAction,
};
use grimoire::scroll_keeper::status::status;
use grimoire::scroll_keeper::transitions::{retry_left, retry_or_fail, Advance, RetryDecision};
use grimoire::scroll_keeper::verification::{
    eval_target, finish_verification, start_verification, verifier_name, Verdict,
    VerdictAction,
};
use grimoire::scroll_keeper::{ApprovalState, Board, Gate, Scroll, ScrollState, Task, TaskState};
use grimoire::scroll_parser::{parse_scroll, Judgement};
use grimoire::types::{AgentState, RestartPolicy, StreamEvent};

fn task(id: &str, name: &str, state: TaskState) -> Task {
    Task {
        id: id.to_string(),
        scroll_id: "s1".to_string(),
        name: name.to_string(),
        prompt: "do it".to_string(),
        state,
        agent_id: None,
        provider: Some("aider".to_string()),
        model: None,
        cwd: None,
        file_patterns: vec!["src/*.rs".to_string()],
        order_index: 0,
        created_at: 0,
        updated_at: 0,
        peer_name: None,
        verify_rubric: None,
        verify_threshold: None,
        verifier_agent_id: None,
    }
}

/// Task 1 depends on task 0, task 2 on task 1, task 3 on nothing.
fn board(states: Vec<TaskState>) -> Board {
    Board {
        scroll: ScrollState::Active,
        max_concurrency: 2,
        states,
        deps: vec![vec![], vec![0], vec![1], vec![]],
        gates: vec![Gate::Open; 4],
    }
}

/// Reads a threshold as a floating-point number.
fn judge(value: &str) -> Judgement {
    match value.parse::<f64>() {
        Err(_) => Judgement::NotANumber,
        Ok(v) if (0.0..=1.0).contains(&v) => Judgement::Within,
        Ok(v) => Judgement::OutOfRange { shown: v.to_string() },
    }
}

#[test]
fn cycles_are_found() {
    assert!(validate_dag(&vec![]));
    assert!(validate_dag(&vec![vec![], vec![0], vec![0, 1]]));
    assert!(!validate_dag(&vec![vec![0]]));
    assert!(!validate_dag(&vec![vec![2], vec![0], vec![1], vec![]]));
}

#[test]
fn downstream_tasks_are_marked() {
    let deps = vec![vec![], vec![0], vec![1], vec![]];
    assert_eq!(mark_downstream(&deps, 0), vec![false, true, true, false]);
    assert_eq!(mark_downstream(&deps, 2), vec![false, false, false, false]);
}

#[test]
fn conflicts_come_in_pairs() {
    let table = vec![
        vec![false, true, true],
        vec![true, false, false],
        vec![true, false, false],
    ];
    assert_eq!(detect_all_conflicts(&table), vec![(0, 1), (0, 2)]);
}

#[test]
fn a_spec_is_inscribed() {
    let content = "# Scroll: P\n\n## Task: B\n- depends: A\n\nb\n\n## Task: A\n- peer: far\n\na\n";
    let spec = parse_scroll(content, judge).unwrap();
    let ids = vec!["t1".to_string(), "t2".to_string()];
    let table = vec![vec![false, true], vec![true, false]];
    let r = inscribe(&spec, "s1", &ids, None, Some("p.md".to_string()), 7, &table).unwrap();
    assert_eq!(r.answer.scroll.name, "P");
    assert_eq!(r.answer.scroll.max_concurrency, 4);
    assert_eq!(r.answer.scroll.state, ScrollState::Inscribed);
    assert_eq!(r.answer.scroll.source_path.as_deref(), Some("p.md"));
    assert_eq!(r.answer.task_count, 2);
    assert_eq!(r.answer.conflicts, vec![(0, 1)]);
    assert_eq!(r.tasks[0].id, "t1");
    assert_eq!(r.tasks[0].state, TaskState::Blocked);
    assert_eq!(r.tasks[1].state, TaskState::Ready);
    assert_eq!(r.tasks[1].order_index, 1);
    assert_eq!(r.tasks[1].peer_name.as_deref(), Some("far"));
    assert_eq!(r.deps, vec![vec![1], vec![]]);
    let r = inscribe(&spec, "s1", &ids, Some(9), None, 7, &table).unwrap();
    assert_eq!(r.answer.scroll.max_concurrency, 9);

    let content = "# Scroll: P\n\n## Task: B\n- depends: A\n\nb\n\n## Task: A\n- depends: B\n\na\n";
    let spec = parse_scroll(content, judge).unwrap();
    assert_eq!(
        inscribe(&spec, "s1", &ids, None, None, 7, &table).unwrap_err(),
        "Dependency cycle detected in scroll s1"
    );
}

#[test]
fn only_inscribed_scrolls_are_activated() {
    let mut b = board(vec![TaskState::Ready, TaskState::Blocked, TaskState::Blocked, TaskState::Ready]);
    assert_eq!(
        b.activate("s1").unwrap_err(),
        "Scroll s1 is in state 'active', can only activate from 'inscribed'"
    );
    b.scroll = ScrollState::Inscribed;
    assert!(b.activate("s1").is_ok());
    assert_eq!(b.scroll, ScrollState::Active);
}

#[test]
fn abandoning_settles_every_task() {
    let mut b = board(vec![TaskState::Complete, TaskState::Active, TaskState::Blocked, TaskState::Failed]);
    assert_eq!(b.abandon(), vec![1]);
    assert_eq!(b.scroll, ScrollState::Abandoned);
    assert_eq!(
        b.states,
        vec![TaskState::Complete, TaskState::Skipped, TaskState::Skipped, TaskState::Failed]
    );
    assert!(b.is_settled());
}

#[test]
fn failures_skip_what_depends_on_them() {
    let mut b = board(vec![TaskState::Active, TaskState::Blocked, TaskState::Blocked, TaskState::Active]);
    assert_eq!(b.fail_task_and_advance(0), Advance::Schedule);
    assert_eq!(
        b.states,
        vec![TaskState::Failed, TaskState::Skipped, TaskState::Skipped, TaskState::Active]
    );
    assert_eq!(b.scroll, ScrollState::Active);
    assert_eq!(b.complete_task_and_advance(3), Advance::Finished(ScrollState::Failed));
    assert_eq!(b.scroll, ScrollState::Failed);
}

#[test]
fn a_scroll_completes_when_every_task_did() {
    let mut b = board(vec![TaskState::Complete, TaskState::Complete, TaskState::Active, TaskState::Skipped]);
    assert_eq!(b.complete_task_and_advance(2), Advance::Finished(ScrollState::Complete));
    assert_eq!(b.scroll, ScrollState::Complete);
}

#[test]
fn slots_bound_a_pass() {
    let mut b = board(vec![TaskState::Active, TaskState::Ready, TaskState::Blocked, TaskState::Ready]);
    let mut pass = b.schedule_tasks();
    assert_eq!(pass.slots, 1);
    assert_eq!(pass.active, vec![true, false, false, false]);
    let free = vec![false, true, true, true];
    let taken = vec![true, false, false, false];
    assert_eq!(pass.next(&b, 1, true, &free, false), TaskAction::Spawn);
    assert_eq!(pass.next(&b, 1, true, &free, true), TaskAction::Dispatch);
    assert_eq!(pass.next(&b, 1, true, &taken, true), TaskAction::Delay);
    let mut gated = |approval: ApprovalState, readable: bool| {
        b.gates[1] = Gate::Needed(approval);
        let action = pass.next(&b, 1, readable, &free, false);
        b.gates[1] = Gate::Open;
        action
    };
    assert_eq!(gated(ApprovalState::Unset, true), TaskAction::Hold);
    assert_eq!(gated(ApprovalState::Pending, true), TaskAction::Hold);
    assert_eq!(gated(ApprovalState::Rejected, true), TaskAction::Fail);
    assert_eq!(gated(ApprovalState::Approved, true), TaskAction::Spawn);
    assert_eq!(gated(ApprovalState::Rejected, false), TaskAction::Spawn);
    pass.settle(&mut b, 1, false);
    assert_eq!(pass.started, 0);
    assert_eq!(b.states[1], TaskState::Failed);
    assert_eq!(b.states[2], TaskState::Skipped);
    pass.settle(&mut b, 3, true);
    assert_eq!(pass.started, 1);
    assert_eq!(b.states[3], TaskState::Active);
    assert_eq!(pass.next(&b, 1, true, &free, false), TaskAction::Stop);
    b.scroll = ScrollState::Complete;
    assert_eq!(b.schedule_tasks().slots, 0);
}

#[test]
fn running_tasks_keep_their_files() {
    let mut b = board(vec![TaskState::Active, TaskState::Ready, TaskState::Blocked, TaskState::Ready]);
    let mut pass = b.schedule_tasks();
    assert!(pass.conflicts(&vec![true, false, false, false]));
    assert!(!pass.conflicts(&vec![false, true, true, true]));
    pass.settle(&mut b, 1, true);
    assert!(!pass.conflicts(&vec![false, true, true, true]));
    assert!(b.schedule_tasks().conflicts(&vec![false, true, true, true]));
}

#[test]
fn peers_are_sent_the_task() {
    let t = task("t1", "Build", TaskState::Ready);
    let p = dispatch_payload(&t);
    assert_eq!(p.task_name, "Build");
    assert_eq!(p.provider, "aider");
    assert_eq!(p.model, "");
    assert_eq!(p.file_patterns, vec!["src/*.rs"]);
    assert_eq!(dispatch_to_peer(&t, "far", true, Some("p1".to_string())).unwrap().0, "p1");
    assert_eq!(dispatch_to_peer(&t, "far", true, None).unwrap_err(), "peer_not_found: far");
    assert_eq!(
        dispatch_to_peer(&t, "far", false, Some("p1".to_string())).unwrap_err(),
        "peer_registry_not_bound"
    );
    assert_eq!(dispatch_task_request("s1", Some(&t)).unwrap().task_id, "t1");
    assert_eq!(dispatch_task_request("s1", None).unwrap_err(), "task_not_found");
    assert_eq!(dispatch_task_request("s2", Some(&t)).unwrap_err(), "task_scroll_mismatch");
}

#[test]
fn held_tasks_are_approved_or_rejected() {
    let tasks = vec![
        task("t1", "Build", TaskState::AwaitingApproval),
        task("t2", "Ship", TaskState::Blocked),
        task("t3", "Sign", TaskState::Blocked),
        task("t4", "t1", TaskState::AwaitingApproval),
    ];
    assert_eq!(resolve_task_in_scroll(&tasks, "t1"), Some(0));
    assert_eq!(resolve_task_in_scroll(&tasks, "Ship"), Some(1));
    assert_eq!(resolve_task_in_scroll(&tasks, "?"), None);
    let states = || tasks.iter().map(|t| t.state).collect::<Vec<_>>();

    let mut b = board(states());
    b.gates[0] = Gate::Needed(ApprovalState::Pending);
    let (i, event) = b.approve_task("s1", &tasks, "Build").unwrap();
    assert_eq!(i, 0);
    assert!(matches!(
        event,
        StreamEvent::TaskStateChange {
            ref task_id,
            old_state: TaskState::AwaitingApproval,
            new_state: TaskState::Ready,
            ..
        } if task_id == "t1"
    ));
    assert_eq!(b.states[0], TaskState::Ready);
    assert_eq!(b.gates[0], Gate::Needed(ApprovalState::Approved));
    assert_eq!(b.schedule_tasks().next(&b, 0, true, &vec![false; 4], false), TaskAction::Spawn);
    let mut b = board(states());
    b.gates[0] = Gate::Needed(ApprovalState::Pending);
    let (i, after) = b.reject_task("s1", &tasks, "t1").unwrap();
    assert_eq!(i, 0);
    assert_eq!(after, Advance::Schedule);
    assert_eq!(
        b.states,
        vec![TaskState::Failed, TaskState::Skipped, TaskState::Skipped, TaskState::AwaitingApproval]
    );
    assert_eq!(b.gates[0], Gate::Needed(ApprovalState::Rejected));
    let mut b = board(states());
    assert_eq!(
        b.approve_task("s1", &tasks, "?").unwrap_err().to_text(),
        "task '?' not found in scroll s1"
    );
    assert_eq!(
        b.approve_task("s1", &tasks, "Ship").unwrap_err().to_text(),
        "task 'Ship' is not awaiting approval (state: blocked)"
    );
}

#[test]
fn operators_are_told_once_of_a_held_task() {
    let mut b = board(vec![TaskState::Ready, TaskState::Blocked, TaskState::Blocked, TaskState::Ready]);
    b.gates[0] = Gate::Needed(ApprovalState::Unset);
    let t = task("t1", "Build", TaskState::Ready);
    let told = b.hold_for_approval(0, &t);
    assert_eq!(told.len(), 2);
    assert!(matches!(
        told[0],
        StreamEvent::TaskStateChange {
            old_state: TaskState::Ready,
            new_state: TaskState::AwaitingApproval,
            ..
        }
    ));
    match &told[1] {
        StreamEvent::Notification { agent_id, message, level, source } => {
            assert_eq!(
                message,
                "approval required: scroll s1 task 'Build' (t1) is held for review. Approve with `grim scroll approve s1 Build` or reject with `grim scroll reject s1 Build`."
            );
            assert_eq!((agent_id.as_deref(), level.as_str(), source.as_str()), (None, "warn", "system"));
        }
        other => panic!("{:?}", other),
    }
    assert_eq!(b.states[0], TaskState::AwaitingApproval);
    assert_eq!(b.gates[0], Gate::Needed(ApprovalState::Pending));
    assert!(b.hold_for_approval(0, &t).is_empty());
    b.states[0] = TaskState::Ready;
    assert_eq!(b.hold_for_approval(0, &t).len(), 2);
}

#[test]
fn agents_that_end_move_their_tasks() {
    assert_eq!(agent_news(AgentState::Complete), AgentNews::Completed);
    assert_eq!(agent_news(AgentState::Failed), AgentNews::Failed);
    assert_eq!(agent_news(AgentState::Banished), AgentNews::Failed);
    assert_eq!(agent_news(AgentState::Active), AgentNews::Nothing);

    use_completion(Lookup::Found, Lookup::Found, true, true, CompletionAction::FinishVerification);
    use_completion(Lookup::Error, Lookup::Found, false, false, CompletionAction::Ignore);
    use_completion(Lookup::Absent, Lookup::Absent, false, false, CompletionAction::Ignore);
    use_completion(Lookup::Absent, Lookup::Found, true, false, CompletionAction::StartVerification);
    use_completion(Lookup::Absent, Lookup::Found, true, true, CompletionAction::Ignore);
    use_completion(Lookup::Absent, Lookup::Found, false, false, CompletionAction::Complete);

    let never = Some(RestartPolicy::Never);
    assert_eq!(
        handle_agent_failure(Some(RestartPolicy::OnFailure), Lookup::Found, Lookup::Found),
        FailureAction::Defer
    );
    assert_eq!(handle_agent_failure(never, Lookup::Found, Lookup::Found), FailureAction::RetryVerified);
    assert_eq!(handle_agent_failure(None, Lookup::Error, Lookup::Found), FailureAction::RetryWorked);
    assert_eq!(handle_agent_failure(None, Lookup::Absent, Lookup::Absent), FailureAction::Ignore);
}

fn use_completion(v: Lookup, w: Lookup, rubric: bool, verifier: bool, want: CompletionAction) {
    assert_eq!(handle_agent_completion(v, w, rubric, verifier), want);
}

#[test]
fn remote_agents_move_their_tasks() {
    let start = || board(vec![TaskState::Active, TaskState::Blocked, TaskState::Blocked, TaskState::Ready]);
    let mut b = start();
    assert_eq!(b.handle_remote_state_change(0, AgentState::Active), None);
    assert_eq!(b.handle_remote_state_change(0, AgentState::Complete), Some("complete"));
    assert_eq!(b.states[0], TaskState::Complete);
    assert_eq!(b.states[1], TaskState::Blocked);
    let mut b = start();
    assert_eq!(b.handle_remote_state_change(0, AgentState::Failed), Some("failed"));
    assert_eq!(b.states[0], TaskState::Failed);
    assert_eq!(b.states[2], TaskState::Skipped);
    assert_eq!(b.states[3], TaskState::Ready);
}

#[test]
fn failed_tasks_are_retried_while_the_budget_lasts() {
    assert!(retry_left(2, 1));
    assert!(!retry_left(2, 2));
    match retry_or_fail("s1", "Build", 3, 1, 2) {
        RetryDecision::Retry { notice } => {
            assert_eq!(notice, "retrying scroll s1 task 'Build' (attempt 2/3)")
        }
        other => panic!("{:?}", other),
    }
    assert!(matches!(retry_or_fail("s1", "Build", 1, 1, 2), RetryDecision::Fail));
    let mut b = board(vec![TaskState::Active, TaskState::Blocked, TaskState::Blocked, TaskState::Ready]);
    b.gates[0] = Gate::Needed(ApprovalState::Approved);
    b.retry(0);
    assert_eq!(b.states[0], TaskState::Ready);
    assert_eq!(b.gates[0], Gate::Needed(ApprovalState::Approved));
}

#[test]
fn evaluators_settle_tasks() {
    let mut t = task("t1", "Build", TaskState::Active);
    let verdict = |passed| {
        Some(Verdict { passed, verdict: Some("good".to_string()), rationale: None })
    };
    let s = finish_verification(&t, "e1", &verdict(true));
    assert_eq!(s.action, VerdictAction::Complete);
    let record = s.record.unwrap();
    assert_eq!(record.target_id, "t1");
    assert_eq!(record.evaluator_id, "e1");
    assert_eq!(record.verdict.as_deref(), Some("good"));
    assert_eq!(record.rationale, None);
    let s = finish_verification(&t, "e1", &verdict(false));
    assert_eq!(s.action, VerdictAction::Retry);
    assert!(s.record.is_some());
    let s = finish_verification(&t, "e1", &None);
    assert_eq!(s.action, VerdictAction::Fail);
    assert!(s.record.is_none());
    assert_eq!(eval_target(&t), "t1");
    t.agent_id = Some("a1".to_string());
    assert_eq!(eval_target(&t), "a1");
    assert_eq!(verifier_name(&t), "verify:Build");
    assert!(start_verification(true, true));
    assert!(!start_verification(false, true));
}

#[test]
fn a_status_counts_tasks_and_names_dependencies() {
    let scroll = Scroll {
        id: "s1".to_string(),
        name: "P".to_string(),
        state: ScrollState::Active,
        source_path: None,
        max_concurrency: 2,
        created_at: 0,
        updated_at: 0,
    };
    let tasks = vec![
        task("t1", "A", TaskState::Active),
        task("t2", "B", TaskState::Ready),
        task("t3", "C", TaskState::Complete),
    ];
    let deps = vec![vec![], vec!["t1".to_string(), "gone".to_string()], vec![]];
    let all = vec![vec![true, true, true], vec![true, true, true], vec![true, true, true]];
    let s = status(scroll, &tasks, &deps, &all);
    assert_eq!((s.total, s.active, s.ready, s.complete, s.failed), (3, 1, 1, 1, 0));
    assert_eq!(s.tasks[1].depends_on_names, vec!["A"]);
    assert_eq!(s.conflicts, vec![(0, 1)]);
    assert_eq!(TaskState::AwaitingApproval.as_str(), "awaiting_approval");
    assert_eq!(ScrollState::Abandoned.as_str(), "abandoned");
}

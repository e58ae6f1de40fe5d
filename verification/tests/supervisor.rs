use grimoire::supervisor::{
    build_system_mail, build_system_mail_event, handle_budget_exhausted, last_error_summary,
    max_restarts, propagated_depth, replay_pending_on_boot, send_escalation, window_start,
    Admission, AgentEventRow, ManualRestartOutcome, PendingRestart, RestartDecision, Supervisor,
    RATE_LIMITED_DELAY, RESTART_DELAY, SECOND,
};
use grimoire::types::{
    Address, AgentState, MailState, RestartHistoryOutcome, RestartPolicy, StreamEvent,
    SupervisionConfig,
};

fn config(policy: RestartPolicy, max: u32) -> Option<SupervisionConfig> {
    Some(SupervisionConfig {
        policy,
        max_restarts: Some(max),
        window_secs: Some(600),
        escalate_to: Some("agent://boss".to_string()),
    })
}

fn entry(fire_at: i64, agent: &str, attempt: u32) -> PendingRestart {
    PendingRestart { fire_at, agent_id: agent.to_string(), attempt }
}

fn agents(list: &[PendingRestart]) -> Vec<&str> {
    list.iter().map(|p| p.agent_id.as_str()).collect()
}

#[test]
fn due_restarts_leave_in_order() {
    let mut s = Supervisor::new(3);
    s.requeue(entry(30, "c", 1));
    s.requeue(entry(10, "b", 1));
    s.requeue(entry(10, "a", 2));
    s.requeue(entry(20, "d", 1));
    assert_eq!(agents(&s.pending_snapshot()), vec!["a", "b", "d", "c"]);
    let due = s.drain_due(20);
    assert_eq!(agents(&due), vec!["a", "b", "d"]);
    assert_eq!(due[0].attempt, 2);
    assert_eq!(agents(&s.pending_snapshot()), vec!["c"]);
    assert!(s.drain_due(29).is_empty());
    assert_eq!(agents(&s.drain_due(30)), vec!["c"]);
    assert!(s.pending_snapshot().is_empty());
}

#[test]
fn cancelling_takes_every_restart_of_the_agent() {
    let mut s = Supervisor::new(3);
    s.requeue(entry(1, "a", 1));
    s.requeue(entry(2, "b", 1));
    s.requeue(entry(3, "a", 2));
    assert!(s.is_pending("a"));
    assert_eq!(s.cancel_pending("a"), 2);
    assert!(!s.is_pending("a"));
    assert_eq!(s.cancel_pending("a"), 0);
    assert_eq!(agents(&s.pending_snapshot()), vec!["b"]);
}

#[test]
fn only_failures_without_pending_restart_are_evaluated() {
    let mut s = Supervisor::new(3);
    assert!(s.on_state_change("a", AgentState::Failed));
    assert!(!s.on_state_change("a", AgentState::Complete));
    assert!(!s.on_state_change("a", AgentState::Banished));
    s.requeue(entry(1, "a", 1));
    assert!(!s.on_state_change("a", AgentState::Failed));
    assert!(s.on_state_change("b", AgentState::Failed));
}

#[test]
fn budgets_are_spent_and_depth_is_capped() {
    let s = Supervisor::new(3);
    let on = config(RestartPolicy::OnFailure, 2);
    assert!(matches!(s.weigh(&None, 0, 0), Admission::NotSupervised));
    assert!(matches!(
        s.weigh(&config(RestartPolicy::Never, 2), 0, 0),
        Admission::NotSupervised
    ));
    assert!(matches!(s.weigh(&on, 2, 1), Admission::Attempt { attempt: 2 }));
    match s.weigh(&on, 2, 2) {
        Admission::BudgetExhausted { reason } => assert_eq!(reason, "budget_spent"),
        other => panic!("{:?}", other),
    }
    match s.weigh(&on, 3, 2) {
        Admission::BudgetExhausted { reason } => assert_eq!(reason, "tree_depth_exceeded"),
        other => panic!("{:?}", other),
    }
    assert_eq!(max_restarts(&on), 2);
    assert_eq!(max_restarts(&None), 0);
    assert_eq!(window_start(&on, 1000), 400);
    assert_eq!(window_start(&None, 1000), 1000);
}

#[test]
fn rate_limited_restarts_wait_longer() {
    let s = Supervisor::new(3);
    let on = config(RestartPolicy::OnFailure, 2);
    assert_eq!(RESTART_DELAY, 2 * SECOND);
    assert_eq!(RATE_LIMITED_DELAY, 60 * SECOND);
    match s.evaluate(&on, 0, 0, 100, true) {
        RestartDecision::Restart { attempt, fire_at, rate_limited } => {
            assert_eq!(attempt, 1);
            assert_eq!(fire_at, 100 + RESTART_DELAY);
            assert!(!rate_limited);
        }
        other => panic!("{:?}", other),
    }
    match s.evaluate(&on, 0, 1, 100, false) {
        RestartDecision::Restart { attempt, fire_at, rate_limited } => {
            assert_eq!(attempt, 2);
            assert_eq!(fire_at, 100 + RATE_LIMITED_DELAY);
            assert!(rate_limited);
        }
        other => panic!("{:?}", other),
    }
    assert!(matches!(
        s.evaluate(&on, 0, 2, 100, true),
        RestartDecision::BudgetExhausted { reason: "budget_spent" }
    ));
    assert!(matches!(s.evaluate(&None, 0, 0, 100, true), RestartDecision::NotSupervised));
}

#[test]
fn a_queued_restart_is_told() {
    let mut s = Supervisor::new(3);
    let events = s.enqueue_restart_core("a", 2, 5, 7 * SECOND + 9, AgentState::Failed, true);
    assert!(s.is_pending("a"));
    assert_eq!(events.len(), 2);
    match &events[0] {
        StreamEvent::StateChange { agent_id, old_state, new_state } => {
            assert_eq!(agent_id, "a");
            assert_eq!(*old_state, AgentState::Failed);
            assert_eq!(*new_state, AgentState::Restarting);
        }
        other => panic!("{:?}", other),
    }
    match &events[1] {
        StreamEvent::RestartScheduled { agent_id, attempt, max, fire_at_unix, rate_limited } => {
            assert_eq!(agent_id, "a");
            assert_eq!((*attempt, *max, *fire_at_unix, *rate_limited), (2, 5, 7, true));
        }
        other => panic!("{:?}", other),
    }
    let row = s.schedule_restart("a", 50, &Some("boom".to_string()));
    assert_eq!(row.agent_id, "a");
    assert_eq!(row.at_secs, 50);
    assert_eq!(row.outcome, RestartHistoryOutcome::Scheduled);
    assert_eq!(row.error_summary.as_deref(), Some("boom"));
}

#[test]
fn operators_override_the_budget_but_not_the_depth() {
    let mut s = Supervisor::new(3);
    let on = config(RestartPolicy::OnFailure, 2);
    let (outcome, row) = s.manual_restart("a", &on, 0, Some(AgentState::Failed), 7, 40);
    assert!(matches!(outcome, ManualRestartOutcome::Scheduled { attempt: 8 }));
    assert_eq!(
        row.unwrap().error_summary.as_deref(),
        Some("manual: operator override (budget was 7/2)")
    );
    let refused = |s: &Supervisor, cfg: &Option<SupervisionConfig>, depth, state| {
        match s.manual_restart("a", cfg, depth, state, 0, 40) {
            (ManualRestartOutcome::Rejected { reason }, None) => reason,
            other => panic!("{:?}", other),
        }
    };
    assert_eq!(refused(&s, &None, 0, Some(AgentState::Failed)), "not_supervised");
    assert_eq!(refused(&s, &on, 3, Some(AgentState::Failed)), "tree_depth_exceeded");
    assert_eq!(refused(&s, &on, 0, Some(AgentState::Active)), "bad_state");
    assert_eq!(refused(&s, &on, 0, None), "bad_state");
    s.requeue(entry(1, "a", 1));
    assert_eq!(refused(&s, &None, 9, None), "already_pending");
}

#[test]
fn escalations_reach_an_agent_or_every_subscriber() {
    let ids = vec!["abcdef99".to_string(), "ghijkl99".to_string()];
    let none: Vec<String> = vec![];
    let plan = send_escalation(
        "supervisor://a",
        &Ok(Address::Agent("boss".to_string())),
        "help",
        &none,
        &ids,
        5,
    )
    .unwrap();
    assert_eq!(plan.outcome.fanout_count, 1);
    assert_eq!(plan.outcome.recipient_ids, vec!["boss"]);
    let m = &plan.mails[0];
    assert_eq!(m.id, "emabcdef");
    assert_eq!(m.recipient_id, "boss");
    assert_eq!(m.sender_id.as_deref(), Some("supervisor://a"));
    assert_eq!(m.topic, None);
    assert_eq!(m.state, MailState::Pending);
    assert!(m.wake_eligible);
    assert_eq!(m.created_at, 5);

    let subs = vec!["x".to_string(), "y".to_string()];
    let topic = Ok(Address::Topic("ops".to_string()));
    let plan = send_escalation("supervisor://a", &topic, "help", &subs, &ids, 5).unwrap();
    assert_eq!(plan.outcome.fanout_count, 2);
    assert_eq!(plan.mails[1].recipient_id, "y");
    assert_eq!(plan.mails[1].topic.as_deref(), Some("ops"));
    match &plan.events[1] {
        StreamEvent::MailReceived { mail_id, recipient_id, topic, body_preview, .. } => {
            assert_eq!(mail_id, "emghijkl");
            assert_eq!(recipient_id, "y");
            assert_eq!(topic.as_deref(), Some("ops"));
            assert_eq!(body_preview, "help");
        }
        other => panic!("{:?}", other),
    }

    let far = Address::FederatedAgent { daemon_id: "d".to_string(), agent_id: "a".to_string() };
    assert_eq!(
        send_escalation("s", &Ok(far), "help", &none, &ids, 5).unwrap_err(),
        "escalate_to_federated_unsupported"
    );
    let bad = Err("invalid_address".to_string());
    assert_eq!(
        send_escalation("s", &bad, "help", &none, &vec![], 5).unwrap_err(),
        "invalid escalate_to: invalid_address"
    );
}

#[test]
fn mail_events_preview_the_body() {
    let m = build_system_mail("id".to_string(), "r", "s", &None, &"é".repeat(300), 1);
    match build_system_mail_event(&m) {
        StreamEvent::MailReceived { body_preview, wake_eligible, .. } => {
            assert_eq!(body_preview, "é".repeat(200));
            assert!(wake_eligible);
        }
        other => panic!("{:?}", other),
    }
}

#[test]
fn exhaustion_escalates_unless_the_tree_is_too_deep() {
    let on = config(RestartPolicy::OnFailure, 2);
    let r = handle_budget_exhausted("a", "budget_spent", &on, &Some("oops".to_string()), 9);
    assert_eq!(r.row.outcome, RestartHistoryOutcome::BudgetExhausted);
    assert_eq!(r.row.error_summary.as_deref(), Some("oops"));
    match &r.event {
        StreamEvent::RestartBudgetExhausted { agent_id, reason } => {
            assert_eq!(agent_id, "a");
            assert_eq!(reason, "budget_spent");
        }
        other => panic!("{:?}", other),
    }
    let e = r.escalation.unwrap();
    assert_eq!(e.target, "agent://boss");
    assert_eq!(e.sender_id, "supervisor://a");
    assert_eq!(e.body, "[supervisor] agent a failed (budget exhausted): oops");

    let r = handle_budget_exhausted("a", "budget_spent", &on, &None, 9);
    assert_eq!(
        r.escalation.unwrap().body,
        "[supervisor] agent a failed (budget exhausted): unknown"
    );
    let r = handle_budget_exhausted("a", "tree_depth_exceeded", &on, &None, 9);
    assert!(r.escalation.is_none());
    let r = handle_budget_exhausted("a", "budget_spent", &None, &None, 9);
    assert!(r.escalation.is_none());

    let r = handle_budget_exhausted("a", "budget_spent", &on, &Some("é".repeat(20_000)), 9);
    let body = r.escalation.unwrap().body;
    assert!(body.len() <= 16_384);
    assert!(body.len() >= 16_383);
}

#[test]
fn escalating_deepens_the_recipient() {
    assert_eq!(propagated_depth(0, 0), 1);
    assert_eq!(propagated_depth(5, 1), 5);
    assert_eq!(propagated_depth(1, 4), 5);
}

#[test]
fn the_last_error_is_summarised() {
    let row = |t: &str, p: &str| AgentEventRow { event_type: t.to_string(), payload: p.to_string() };
    let events = vec![row("stderr", "first"), row("stderr", "second"), row("stderr", ""), row("stdout", "out")];
    assert_eq!(last_error_summary(&events).as_deref(), Some("second"));
    assert_eq!(last_error_summary(&vec![row("stdout", "out")]), None);
    let long = vec![row("stderr", &"x".repeat(250))];
    assert_eq!(last_error_summary(&long).unwrap().len(), 200);
}

#[test]
fn a_boot_restarts_at_once() {
    let owed = RestartDecision::Restart { attempt: 2, fire_at: 99 * SECOND, rate_limited: true };
    assert!(matches!(
        replay_pending_on_boot(false, owed, 5),
        RestartDecision::Restart { attempt: 2, fire_at: 5, rate_limited: false }
    ));
    assert!(matches!(replay_pending_on_boot(true, owed, 5), RestartDecision::NotSupervised));
    let spent = RestartDecision::BudgetExhausted { reason: "budget_spent" };
    assert!(matches!(
        replay_pending_on_boot(false, spent, 5),
        RestartDecision::BudgetExhausted { reason: "budget_spent" }
    ));
}

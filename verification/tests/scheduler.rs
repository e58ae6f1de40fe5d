use grimoire::scheduler::{
    build_wake_prompt, should_wake, wake_delivered, Phase, QueueRow, RestartAction, RowAction, Tick,
    WakeAction, WAKE_FOLD_MAX_BYTES,
};
use grimoire::types::{AgentState, Mail, MailState, StreamEvent};

fn mail(id: &str, body: &str) -> Mail {
    Mail {
        id: id.to_string(),
        recipient_id: "r".to_string(),
        sender_id: None,
        topic: None,
        body: body.to_string(),
        in_reply_to: None,
        state: MailState::Pending,
        fail_reason: None,
        created_at: 0,
        delivered_at: None,
        seq: 0,
        wake_eligible: true,
    }
}

/// A tick that has come to the queue.
fn at_queue(in_flight: usize, cap: usize) -> Tick {
    let mut t = Tick::begin(in_flight, cap);
    t.phase = Phase::Queue;
    t
}

fn row(provider: Option<&str>, block_reason: Option<&str>) -> QueueRow {
    QueueRow {
        id: "q".to_string(),
        lane: "default".to_string(),
        enqueued_at: 3,
        provider_name: provider.map(|p| p.to_string()),
        cwd: "/".to_string(),
        model: None,
        block_reason: block_reason.map(|p| p.to_string()),
        task_text: "t".to_string(),
    }
}

#[test]
fn bodies_are_folded_in_order() {
    let (prompt, ids) = build_wake_prompt(&vec![mail("a", "one"), mail("b", "two")]);
    assert_eq!(prompt, "one\n\n---\n\ntwo");
    assert_eq!(ids, vec!["a", "b"]);
    let (prompt, ids) = build_wake_prompt(&vec![]);
    assert_eq!(prompt, "");
    assert!(ids.is_empty());
}

#[test]
fn what_does_not_fit_is_counted() {
    let big = "x".repeat(WAKE_FOLD_MAX_BYTES - 3);
    let (prompt, ids) =
        build_wake_prompt(&vec![mail("a", &big), mail("b", "more"), mail("c", "yet more")]);
    assert_eq!(prompt, format!("{}\n\n[... 2 more truncated]", big));
    assert_eq!(ids, vec!["a"]);
}

#[test]
fn an_oversized_first_message_is_cut() {
    let big = "é".repeat(WAKE_FOLD_MAX_BYTES);
    let (prompt, ids) = build_wake_prompt(&vec![mail("a", &big), mail("b", "more")]);
    assert_eq!(prompt, format!("{}\n\n[... 1 more truncated]", "é".repeat(4_096)));
    assert_eq!(ids, vec!["a"]);
    let (prompt, ids) = build_wake_prompt(&vec![mail("a", &big)]);
    assert_eq!(prompt, "é".repeat(4_096));
    assert_eq!(ids, vec!["a"]);
}

#[test]
fn empty_messages_before_a_cut_one_are_not_counted() {
    let big = "x".repeat(20_000);
    let (prompt, ids) = build_wake_prompt(&vec![mail("a", ""), mail("b", &big)]);
    assert_eq!(prompt, "x".repeat(4_096));
    assert_eq!(ids, vec!["a", "b"]);
    let (prompt, ids) =
        build_wake_prompt(&vec![mail("a", ""), mail("b", &big), mail("c", "more")]);
    assert_eq!(prompt, format!("{}\n\n[... 1 more truncated]", "x".repeat(4_096)));
    assert_eq!(ids, vec!["a", "b"]);
}

#[test]
fn the_fold_ends_at_the_first_message_that_does_not_fit() {
    let first = "x".repeat(16_000);
    let (prompt, ids) =
        build_wake_prompt(&vec![mail("a", &first), mail("b", &"y".repeat(400)), mail("c", "z")]);
    assert_eq!(prompt, format!("{}\n\n[... 2 more truncated]", first));
    assert_eq!(ids, vec!["a"]);
}

#[test]
fn some_events_wake_the_scheduler() {
    assert!(should_wake(&StreamEvent::AgentQueued { agent_id: "a".to_string() }));
    assert!(should_wake(&StreamEvent::WorkerRegistered { worker_id: "w".to_string() }));
    let change = |new_state| StreamEvent::StateChange {
        agent_id: "a".to_string(),
        old_state: AgentState::Active,
        new_state,
    };
    assert!(should_wake(&change(AgentState::Failed)));
    assert!(should_wake(&change(AgentState::Complete)));
    assert!(!should_wake(&change(AgentState::Active)));
    let delivered =
        StreamEvent::MailDelivered {
            mail_id: "m".to_string(),
            recipient_id: "r".to_string(),
            origin_daemon_id: None,
        };
    assert!(!should_wake(&delivered));
}

#[test]
fn rows_are_claimed_under_the_cap() {
    let local = vec!["aider".to_string()];
    let t = at_queue(0, 1);
    assert!(t.has_room());
    assert!(matches!(t.row(&row(Some("aider"), None), &local, false), RowAction::Claim));
    assert!(matches!(t.row(&row(None, None), &local, false), RowAction::Claim));
    assert!(matches!(t.row(&row(Some("far"), None), &local, true), RowAction::Claim));
    match t.row(&row(Some("far"), None), &local, false) {
        RowAction::Block { reason } => assert_eq!(reason, "no_eligible_worker"),
        other => panic!("{:?}", other),
    }
    assert!(matches!(
        t.row(&row(Some("far"), Some("no_eligible_worker")), &local, false),
        RowAction::Skip
    ));
    let full = at_queue(1, 1);
    assert!(!full.has_room());
    match full.row(&row(None, Some("no_eligible_worker")), &local, true) {
        RowAction::Block { reason } => assert_eq!(reason, "capacity"),
        other => panic!("{:?}", other),
    }
    assert!(matches!(full.row(&row(None, Some("capacity")), &local, true), RowAction::Skip));
    let none = Tick::begin(0, 0);
    assert!(!matches!(none.row(&row(None, None), &local, true), RowAction::Claim));
}

#[test]
fn a_failed_dispatch_goes_back_and_stops_the_tick() {
    let mut t = Tick::begin(0, 3);
    t.started();
    assert_eq!(t.in_flight, 1);
    t.advance();
    t.advance();
    assert!(t.dispatched(row(None, None), true).is_none());
    assert_eq!(t.in_flight, 2);
    let back = t.dispatched(row(Some("p"), Some("capacity")), false).unwrap();
    assert_eq!(back.block_reason, None);
    assert_eq!(back.enqueued_at, 3);
    assert_eq!(back.provider_name.as_deref(), Some("p"));
    assert_eq!(t.in_flight, 2);
    assert!(matches!(t.row(&row(None, None), &vec![], true), RowAction::Skip));
}

#[test]
fn restarts_wait_for_room() {
    let mut t = Tick::begin(0, 1);
    t.advance();
    assert_eq!(t.restart(), RestartAction::Dispatch);
    t.started();
    assert_eq!(t.restart(), RestartAction::Requeue);
}

#[test]
fn a_tick_wakes_then_restarts_then_takes_from_the_queue() {
    let mut t = Tick::begin(0, 2);
    assert_eq!(t.phase, Phase::Wake);
    assert!(matches!(t.row(&row(None, None), &vec![], true), RowAction::Skip));
    t.started();
    t.advance();
    assert_eq!(t.phase, Phase::Restart);
    t.advance();
    assert_eq!(t.phase, Phase::Queue);
    assert!(t.dispatched(row(None, None), true).is_none());
    assert!(matches!(t.row(&row(None, None), &vec![], true), RowAction::Block { reason: "capacity" }));
    t.advance();
    assert_eq!(t.phase, Phase::Over);

    let mut full = Tick::begin(1, 1);
    full.advance();
    assert_eq!(full.phase, Phase::Over);
    assert!(matches!(full.row(&row(None, None), &vec![], true), RowAction::Skip));
    assert_eq!(Tick::begin(0, 0).phase, Phase::Over);
}

#[test]
fn only_dormant_agents_with_a_session_are_woken() {
    let t = Tick::begin(0, 1);
    let pending = vec![mail("a", "hello")];
    match t.mail_wake(Some(AgentState::Dormant), true, &pending) {
        WakeAction::Wake { prompt, folded_ids } => {
            assert_eq!(prompt, "hello");
            assert_eq!(folded_ids, vec!["a"]);
        }
        other => panic!("{:?}", other),
    }
    assert!(matches!(t.mail_wake(Some(AgentState::Active), true, &pending), WakeAction::Skip));
    assert!(matches!(t.mail_wake(Some(AgentState::Dormant), false, &pending), WakeAction::Skip));
    assert!(matches!(t.mail_wake(None, true, &pending), WakeAction::Skip));
    assert!(matches!(t.mail_wake(Some(AgentState::Dormant), true, &vec![]), WakeAction::Skip));
    let full = Tick::begin(1, 1);
    assert!(matches!(full.mail_wake(Some(AgentState::Dormant), true, &pending), WakeAction::Stop));
}

#[test]
fn marked_mail_is_told_as_delivered() {
    let events = wake_delivered(&vec![mail("a", ""), mail("b", ""), mail("c", "")], &vec![true, false]);
    assert_eq!(events.len(), 1);
    match &events[0] {
        StreamEvent::MailDelivered { mail_id, recipient_id, origin_daemon_id: None } => {
            assert_eq!(mail_id, "a");
            assert_eq!(recipient_id, "r");
        }
        other => panic!("{:?}", other),
    }
}

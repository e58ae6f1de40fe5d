use grimoire::rpc::agents::{
    finish_summon, handle_agent_processes, handle_summon, no_such_agent, parse_policy, queue_age,
    status_counts, FoundWorkspace, PolicyConfig, ProcessRow, SummonEnd, SummonFacts, SummonOrder,
    SummonParams, SummonStart, SummonedAgent,
};
use grimoire::rpc::misc::{handle_eval_record, handle_notify, name_order};
use grimoire::rpc::scrolls::{handle_pact_create, spec_unreadable, PactState};
use grimoire::rpc::supervision::{handle_supervisor_restart_now, history_limit};
use grimoire::rpc::wake::{handle_wake_add, handle_wake_remove, wake_test_fault};
use grimoire::rpc::{
    handle_rpc, invalid_params, resolve_peer, resolve_workspace, rpc_err, rpc_fail, Method,
    INVALID_PARAMS, METHOD_NOT_FOUND, SERVER_ERROR,
};
use grimoire::supervisor::ManualRestartOutcome;
use grimoire::types::{AgentState, Lane, RestartPolicy, StreamEvent};
use grimoire::wake_registry::WakeSourceKind;
use grimoire::workspace_db::WorkspaceState;

fn text(s: &str) -> Option<String> {
    Some(s.to_string())
}

fn params() -> SummonParams {
    SummonParams {
        task: "do x".to_string(),
        name: None,
        model: None,
        keep_alive: None,
        idempotency_key: None,
        restart_policy: None,
        max_restarts: None,
        restart_window_secs: None,
        escalate_to: None,
        workspace: None,
        cwd: None,
        provider: None,
        parent_agent_id: None,
    }
}

fn supervised() -> SummonParams {
    SummonParams {
        restart_policy: text("on_failure"),
        max_restarts: Some(3),
        restart_window_secs: Some(600),
        escalate_to: text("agent://boss"),
        ..params()
    }
}

fn facts() -> SummonFacts {
    SummonFacts {
        minted: None,
        escalate_fault: None,
        workspace: Ok(None),
        default_provider: "aider".to_string(),
        cwd: "/home/u/link".to_string(),
        real_cwd: "/home/u/work".to_string(),
        policy: None,
    }
}

fn refused(p: &SummonParams, f: &SummonFacts) -> String {
    let e = handle_summon(p, f).unwrap_err();
    assert_eq!(e.code, SERVER_ERROR);
    e.message
}

#[test]
fn methods_are_known_by_name() {
    assert_eq!(handle_rpc(None, "agent.summon").unwrap(), Method::AgentSummon);
    assert_eq!(handle_rpc(Some(1), "mail.send").unwrap(), Method::MailSend);
    assert_eq!(handle_rpc(Some(1), "memory.put").unwrap(), Method::MemoryPut);
    let e = handle_rpc(None, "agent.dance").unwrap_err();
    assert_eq!(e.code, METHOD_NOT_FOUND);
    assert_eq!(e.message, "Unknown method: agent.dance");
    let e = handle_rpc(Some(2), "agent.summon").unwrap_err();
    assert_eq!(e.code, SERVER_ERROR);
    assert_eq!(e.message, "unsupported_protocol_version");
}

#[test]
fn faults_carry_codes() {
    assert_eq!(rpc_err("x").code, -32000);
    assert_eq!(rpc_fail("banish", "gone").message, "Failed to banish: gone");
    let e = invalid_params("missing field");
    assert_eq!(e.code, INVALID_PARAMS);
    assert_eq!(e.message, "Invalid params: missing field");
    assert_eq!(resolve_peer(Ok(Some(7))).unwrap(), 7);
    assert_eq!(resolve_peer::<u32>(Ok(None)).unwrap_err().message, "peer_not_found");
    assert_eq!(resolve_peer::<u32>(Err("locked")).unwrap_err().message, "db: locked");
    assert_eq!(resolve_workspace::<u32>(Ok(None)).unwrap_err().message, "workspace_not_found");
}

fn ordered(p: &SummonParams, f: &SummonFacts) -> SummonOrder {
    match handle_summon(p, f) {
        Ok(SummonStart::Enqueue(o)) => o,
        other => panic!("{:?}", other),
    }
}

fn found(state: WorkspaceState) -> Result<Option<FoundWorkspace>, String> {
    Ok(Some(FoundWorkspace { state, path: "/ws/w".to_string() }))
}

#[test]
fn summons_hand_the_queue_an_order() {
    let o = ordered(&params(), &facts());
    assert_eq!(o.task, "do x");
    assert_eq!(o.name, None);
    assert_eq!(o.cwd, "/home/u/link");
    assert_eq!(o.lane, Lane::Adhoc);
    assert!(!o.keep_alive);
    let p = SummonParams {
        name: text("n"),
        model: text("m"),
        provider: text("pi"),
        workspace: text("w"),
        keep_alive: Some(true),
        ..params()
    };
    let o = ordered(&p, &SummonFacts { workspace: found(WorkspaceState::Active), ..facts() });
    assert_eq!(o.name.as_deref(), Some("n"));
    assert_eq!(o.model.as_deref(), Some("m"));
    assert_eq!(o.provider.as_deref(), Some("pi"));
    assert_eq!(o.cwd, "/ws/w");
    assert!(o.keep_alive);
}

#[test]
fn summons_ask_for_whole_supervision() {
    assert_eq!(parse_policy("never"), Some(RestartPolicy::Never));
    assert_eq!(parse_policy("always"), None);
    assert!(ordered(&params(), &facts()).supervision.is_none());
    let s = ordered(&supervised(), &facts()).supervision.unwrap();
    assert_eq!(s.policy, RestartPolicy::OnFailure);
    assert_eq!(s.max_restarts, Some(3));
    assert_eq!(s.window_secs, Some(600));
    assert_eq!(s.escalate_to.as_deref(), Some("agent://boss"));

    let f = facts();
    let p = SummonParams { restart_policy: text("always"), ..params() };
    assert_eq!(refused(&p, &f), "invalid_restart_policy");
    let p = SummonParams { escalate_to: text("x"), ..params() };
    assert_eq!(refused(&p, &f), "escalate_requires_policy");
    let p = SummonParams { max_restarts: Some(1), ..params() };
    assert_eq!(refused(&p, &f), "never_with_options");
    let p = SummonParams { max_restarts: None, ..supervised() };
    assert_eq!(refused(&p, &f), "max_restarts_required");
    let p = SummonParams { max_restarts: Some(0), ..supervised() };
    assert_eq!(refused(&p, &f), "max_restarts_zero");
    let p = SummonParams { restart_window_secs: Some(0), ..supervised() };
    assert_eq!(refused(&p, &f), "window_required");
    let p = SummonParams { restart_window_secs: Some(604_801), ..supervised() };
    assert_eq!(refused(&p, &f), "window_too_large");
    let bad = SummonFacts { escalate_fault: text("bad_address"), ..facts() };
    assert_eq!(refused(&supervised(), &bad), "bad_address");
    assert!(handle_summon(&params(), &bad).is_ok());
}

#[test]
fn summons_into_workspaces() {
    let p = SummonParams { workspace: text("w"), ..params() };
    assert_eq!(refused(&p, &facts()), "workspace_not_found");
    let f = SummonFacts { workspace: found(WorkspaceState::Destroying), ..facts() };
    assert_eq!(refused(&p, &f), "workspace_destroying");
    let f = SummonFacts { workspace: found(WorkspaceState::Active), ..facts() };
    assert!(handle_summon(&p, &f).is_ok());
    let p = SummonParams { workspace: text("w"), cwd: text("/"), ..params() };
    assert_eq!(refused(&p, &f), "conflicting_options");
    let p = SummonParams { workspace: text("w"), ..params() };
    let f = SummonFacts { workspace: Err("locked".to_string()), ..facts() };
    assert_eq!(refused(&p, &f), "db: locked");
}

#[test]
fn repeated_summons_give_back_the_agent() {
    let minted = || {
        Some(SummonedAgent { id: "a1".to_string(), name: text("n"), state: AgentState::Active })
    };
    let bad = SummonParams {
        idempotency_key: text("k"),
        restart_policy: text("always"),
        ..params()
    };
    match handle_summon(&bad, &SummonFacts { minted: minted(), ..facts() }) {
        Ok(SummonStart::Existing(a)) => {
            assert_eq!(a.id, "a1");
            assert_eq!(a.name.as_deref(), Some("n"));
            assert_eq!(a.state, AgentState::Active);
        }
        other => panic!("{:?}", other),
    }
    assert_eq!(refused(&bad, &facts()), "invalid_restart_policy");
    let fresh = SummonParams { idempotency_key: text("k"), ..params() };
    assert!(ordered(&fresh, &facts()).supervision.is_none());
}

#[test]
fn operators_limit_providers_and_directories() {
    let policy = |allow: &[&str], deny: &[&str], cwd_allow: &[&str], cwd_deny: &[&str]| {
        let own = |l: &[&str]| l.iter().map(|s| s.to_string()).collect::<Vec<_>>();
        SummonFacts {
            policy: Some(PolicyConfig {
                provider_allow: own(allow),
                provider_deny: own(deny),
                cwd_allow_prefixes: own(cwd_allow),
                cwd_deny_prefixes: own(cwd_deny),
            }),
            ..facts()
        }
    };
    let p = params();
    assert!(handle_summon(&p, &policy(&[], &[], &[], &[])).is_ok());
    assert_eq!(refused(&p, &policy(&["aider"], &["aider"], &[], &[])), "policy_provider_denied");
    assert_eq!(refused(&p, &policy(&["other"], &[], &[], &[])), "policy_provider_not_allowed");
    assert_eq!(refused(&p, &policy(&[], &[], &["/home"], &["/home/u"])), "policy_cwd_denied");
    assert_eq!(refused(&p, &policy(&[], &[], &["/srv"], &[])), "policy_cwd_not_allowed");
    assert!(handle_summon(&p, &policy(&["aider"], &["x"], &["/home/u"], &["/home/user"])).is_ok());
    let named = SummonParams { provider: text("other"), ..params() };
    assert!(handle_summon(&named, &policy(&["other"], &[], &[], &[])).is_ok());
}

#[test]
fn a_summon_may_be_rolled_back() {
    let rolled = |p: &SummonParams, known, budget| match finish_summon(p, "new", known, budget) {
        SummonEnd::Rollback(e) => e.message,
        other => panic!("{:?}", other),
    };
    let child = SummonParams { parent_agent_id: text("p"), ..params() };
    let itself = SummonParams { parent_agent_id: text("new"), ..params() };
    let escalates = SummonParams { escalate_to: text("agent://new"), ..supervised() };
    assert!(matches!(finish_summon(&params(), "new", Ok(false), None), SummonEnd::Done));
    assert!(matches!(finish_summon(&child, "new", Ok(true), Some(true)), SummonEnd::Done));
    assert_eq!(rolled(&itself, Ok(true), None), "self_parent");
    assert_eq!(rolled(&child, Ok(false), None), "parent_not_found");
    assert_eq!(rolled(&child, Ok(true), Some(false)), "invalid_tree_budget");
    assert_eq!(rolled(&escalates, Ok(true), None), "self_escalation");
    match finish_summon(&child, "new", Err("locked"), None) {
        SummonEnd::Failed(e) => assert_eq!(e.message, "Failed to summon: locked"),
        other => panic!("{:?}", other),
    }
}

#[test]
fn agents_are_shown() {
    assert_eq!(queue_age(5), 5);
    assert_eq!(queue_age(-5), 0);
    assert_eq!(no_such_agent("x").message, "no agent matching 'x'");
    assert_eq!(
        status_counts(&vec![AgentState::Active, AgentState::Queued, AgentState::Active]),
        (2, 1)
    );
    let row = |state, pid, alive| ProcessRow {
        agent_id: "a".to_string(),
        state,
        task: "t".to_string(),
        pid,
        alive,
    };
    let shown = handle_agent_processes(&vec![
        row(AgentState::Active, Some(7), true),
        row(AgentState::Queued, None, true),
        row(AgentState::Failed, Some(8), true),
        row(AgentState::Failed, Some(9), false),
    ]);
    let got: Vec<(u32, bool)> = shown.iter().map(|p| (p.pid, p.stuck)).collect();
    assert_eq!(got, vec![(7, false), (8, true), (9, false)]);
}

#[test]
fn notices_need_a_message() {
    match handle_notify(text("a"), "hi".to_string(), None).unwrap() {
        StreamEvent::Notification { agent_id, message, level, source } => {
            assert_eq!(agent_id.as_deref(), Some("a"));
            assert_eq!((message.as_str(), level.as_str(), source.as_str()), ("hi", "info", "agent"));
        }
        other => panic!("{:?}", other),
    }
    let e = handle_notify(None, " \n".to_string(), text("warn")).unwrap_err();
    assert_eq!(e.code, INVALID_PARAMS);
    assert_eq!(e.message, "notify: message must not be empty");
}

#[test]
fn evaluations_need_a_target() {
    assert_eq!(handle_eval_record(true, Ok("e1".to_string())).unwrap(), "e1");
    assert_eq!(
        handle_eval_record(false, Ok("e1".to_string())).unwrap_err().message,
        "target_not_found"
    );
    assert_eq!(
        handle_eval_record(true, Err("locked")).unwrap_err().message,
        "insert_eval_result: locked"
    );
}

#[test]
fn names_are_put_in_order() {
    let names: Vec<String> = ["b", "a", "é", "ab"].iter().map(|s| s.to_string()).collect();
    assert_eq!(name_order(&names), vec![1, 3, 0, 2]);
}

#[test]
fn restarts_are_answered() {
    let r = handle_supervisor_restart_now(Some(Ok(ManualRestartOutcome::Scheduled { attempt: 2 })))
        .unwrap();
    assert_eq!((r.outcome, r.reason, r.attempt), ("scheduled", None, Some(2)));
    let r = handle_supervisor_restart_now(Some(Ok(ManualRestartOutcome::Rejected {
        reason: "bad_state",
    })))
    .unwrap();
    assert_eq!((r.outcome, r.reason, r.attempt), ("rejected", Some("bad_state"), None));
    assert_eq!(
        handle_supervisor_restart_now(None).unwrap_err().message,
        "supervisor_not_ready"
    );
    assert_eq!(
        handle_supervisor_restart_now(Some(Err("locked"))).unwrap_err().message,
        "supervisor.restart-now: locked"
    );
    assert_eq!(history_limit(None), 50);
    assert_eq!(history_limit(Some(3)), 3);
}

#[test]
fn wake_sources_are_added_and_removed() {
    let a = handle_wake_add(Some("/w"), "file_watch").unwrap();
    assert_eq!(a.kind, WakeSourceKind::FileWatch);
    assert_eq!(a.root.as_deref(), Some("/w"));
    let a = handle_wake_add(Some("/w"), "cron").unwrap();
    assert_eq!(a.kind, WakeSourceKind::Cron);
    assert_eq!(a.root, None);
    assert_eq!(handle_wake_add(None, "cron").unwrap_err().message, "agent_not_found");
    assert_eq!(handle_wake_add(Some("/w"), "moon").unwrap_err().message, "invalid_kind");
    assert!(handle_wake_remove(Ok(true)).is_ok());
    assert_eq!(handle_wake_remove(Ok(false)).unwrap_err().message, "wake_not_found");
    assert_eq!(handle_wake_remove(Err("locked")).unwrap_err().message, "remove: locked");
    assert_eq!(wake_test_fault("error: wake_not_found here").message, "wake_not_found");
    assert_eq!(wake_test_fault("rate_limited").message, "rate_limited");
}

#[test]
fn pacts_start_pending() {
    let p = handle_pact_create("p1", "a".to_string(), "do {result}".to_string(), None, 4);
    assert_eq!(p.id, "p1");
    assert_eq!(p.source_id, "a");
    assert_eq!(p.state, PactState::Pending);
    assert_eq!(p.created_at, 4);
    assert_eq!(
        spec_unreadable("s.md", "gone").message,
        "Failed to read spec file 's.md': gone"
    );
}

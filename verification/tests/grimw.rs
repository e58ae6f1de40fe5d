use grimoire::grimw::config::{
    default_max_concurrent, default_version, GrimwConfig, ProviderConfig,
};
use grimoire::grimw::rpc_client::{Session, SessionInput, SessionStep};
use grimoire::grimw::task_runner::{
    build_agent_env, fill_templates, AssignTask, Report, TaskDispatcher,
};

#[test]
fn agent_env_always_carries_agent_id() {
    let env = build_agent_env("abc12345", &vec![]);
    assert!(
        env.iter()
            .any(|(k, v)| k == "GRIMOIRE_AGENT_ID" && v == "abc12345")
    );
}

#[test]
fn agent_env_merges_extra_from_daemon() {
    let extra = vec![("GRIMOIRE_WORKSPACE_ID".to_string(), "ws-1".to_string())];
    let env = build_agent_env("abc12345", &extra);
    assert!(
        env.iter()
            .any(|(k, v)| k == "GRIMOIRE_AGENT_ID" && v == "abc12345")
    );
    assert!(
        env.iter()
            .any(|(k, v)| k == "GRIMOIRE_WORKSPACE_ID" && v == "ws-1")
    );
}

fn provider() -> ProviderConfig {
    ProviderConfig {
        binary: "run".to_string(),
        args_template: vec!["{task}".to_string()],
        version: "1.2.0".to_string(),
        env: vec![("P".to_string(), "1".to_string())],
    }
}

fn assign(agent: &str, provider: &str, constraint: &str) -> AssignTask {
    AssignTask {
        agent_id: agent.to_string(),
        provider_name: provider.to_string(),
        provider_constraint: constraint.to_string(),
        task: "go".to_string(),
        cwd: "/w".to_string(),
        env: vec![],
    }
}

fn rejected(d: &TaskDispatcher, a: &AssignTask, cwd: bool) -> String {
    match d.handle_assign(a, cwd) {
        Err(Report::Rejected { reason, .. }) => reason,
        _ => panic!("expected a rejection"),
    }
}

#[test]
fn assignments_are_checked() {
    let mut d = TaskDispatcher::new(vec![("p".to_string(), provider())], 1);
    let l = d.handle_assign(&assign("a", "p", "^1.0"), true).unwrap();
    assert_eq!(l.program, "run");
    assert_eq!(l.args, vec!["go"]);
    assert_eq!(l.cwd, "/w");
    assert_eq!(rejected(&d, &assign("a", "q", ""), true), "provider_missing");
    assert_eq!(rejected(&d, &assign("a", "p", ""), false), "cwd_unreachable");
    assert_eq!(rejected(&d, &assign("a", "p", "^2.0"), true), "version_mismatch");
    assert_eq!(rejected(&d, &assign("a", "p", "nonsense"), true), "version_mismatch");
    assert!(d.handle_assign(&assign("a", "p", "*"), true).is_ok());
    let _ = d.started("a", Some(9));
    assert_eq!(d.in_flight, 1);
    assert_eq!(rejected(&d, &assign("b", "p", ""), true), "at_capacity");
    assert!(d.cancel("a"));
    assert!(!d.cancel("b"));
    let _ = d.finished("a", Some((true, Some(0))));
    assert_eq!(d.in_flight, 0);
    d.drain();
    assert_eq!(rejected(&d, &assign("b", "p", ""), true), "draining");
    match d.spawn_failed("b", "no such file") {
        Report::Rejected { reason, .. } => assert_eq!(reason, "spawn_failed: no such file"),
        _ => panic!("expected a rejection"),
    }
}

#[test]
fn agent_env_does_not_depend_on_the_order_sent() {
    let pair = |k: &str, v: &str| (k.to_string(), v.to_string());
    let one = build_agent_env("a", &vec![pair("B", "1"), pair("A", "2"), pair("AB", "3")]);
    let other = build_agent_env("a", &vec![pair("AB", "3"), pair("B", "1"), pair("A", "2")]);
    assert_eq!(one, other);
    assert_eq!(
        one,
        vec![pair("GRIMOIRE_AGENT_ID", "a"), pair("A", "2"), pair("AB", "3"), pair("B", "1")]
    );
}

#[test]
fn templates_are_filled() {
    let t = vec!["-m".to_string(), "a {task} b {task}".to_string()];
    assert_eq!(fill_templates(&t, "X"), vec!["-m", "a X b X"]);
}

fn config() -> GrimwConfig {
    GrimwConfig {
        daemon_url: "https://d".to_string(),
        secret: "s".to_string(),
        daemon_cert_path: "c".to_string(),
        daemon_cert_sha256: String::new(),
        tls_cert_path: None,
        tls_key_path: None,
        worker_id: None,
        max_concurrent: 3,
        tags: vec!["gpu".to_string()],
        providers: vec![("p".to_string(), provider())],
    }
}

#[test]
fn plaintext_daemons_are_rejected() {
    let mut c = config();
    assert!(c.encrypted());
    c.daemon_url = "http://d:1".to_string();
    assert!(!c.encrypted());
    c.daemon_url = "d:1/https://".to_string();
    assert!(!c.encrypted());
}

#[test]
fn registration_tells_what_the_worker_offers() {
    let mut c = config();
    assert_eq!(c.effective_id("1"), "w-1");
    c.worker_id = Some("fixed".to_string());
    assert_eq!(c.effective_id("w-1"), "fixed");
    let r = c.register_message("fixed", "0.1.0", 2);
    assert_eq!(r.bearer_token, "s");
    assert_eq!(r.max_concurrent, 3);
    assert_eq!(r.providers, vec![("p".to_string(), "1.2.0".to_string())]);
    assert_eq!(r.tags, vec!["gpu"]);
    assert_eq!(r.protocol_version, 2);
    assert_eq!(default_max_concurrent(), 4);
    assert_eq!(default_version(), "0.0.0");
}

#[test]
fn sessions_follow_their_inputs() {
    let mut s = Session::new(TaskDispatcher::new(vec![], 1));
    assert!(matches!(s.take(SessionInput::Idle), SessionStep::Continue));
    assert!(matches!(
        s.take(SessionInput::Assign(assign("a", "p", ""))),
        SessionStep::Run(_)
    ));
    assert!(matches!(
        s.take(SessionInput::Cancel { agent_id: "a".to_string() }),
        SessionStep::Cancel { .. }
    ));
    assert!(matches!(s.take(SessionInput::Closed), SessionStep::End));
    assert!(matches!(s.take(SessionInput::Broken), SessionStep::End));
    assert!(!s.dispatcher.draining);
    assert!(matches!(s.take(SessionInput::Shutdown), SessionStep::Drain));
    assert!(s.dispatcher.draining);
}

#[test]
fn heartbeats_are_numbered() {
    let mut s = Session::new(TaskDispatcher::new(vec![], 1));
    assert_eq!(s.beat().seq, 1);
    assert_eq!(s.beat().seq, 2);
    assert!(!s.keeps_draining(0));
    let _ = s.dispatcher.started("a", None);
    assert_eq!(s.beat().in_flight, 1);
    assert!(s.keeps_draining(4_999));
    assert!(!s.keeps_draining(5_000));
}

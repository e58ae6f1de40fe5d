use grimoire::worker_registry::{
    least_loaded, worker_version_meets_minimum, RegisterError, RegisterParams, Worker,
    WorkerRegistry,
};
use grimoire::worker_rpc_server::{
    admission_check, channel, registration_refusal, route, Register, Route, StatusCode,
    WorkerMessage,
};

fn params(id: &str, provider: &str, version: &str, max: u32) -> RegisterParams {
    RegisterParams {
        worker_id: id.to_string(),
        bearer_ok: true,
        worker_version: "0.2.0".to_string(),
        max_concurrent: max,
        providers: vec![(provider.to_string(), version.to_string())],
        tags: vec!["gpu".to_string()],
    }
}

fn first(protocol: u32, token: &str, version: &str) -> Register {
    Register {
        worker_id: "w".to_string(),
        bearer_token: token.to_string(),
        worker_version: version.to_string(),
        max_concurrent: 2,
        providers: vec![
            ("aider".to_string(), "1.2.3".to_string()),
            ("odd".to_string(), "not-a-version".to_string()),
        ],
        tags: vec!["gpu".to_string()],
        protocol_version: protocol,
    }
}

#[test]
fn each_id_registers_once() {
    let mut r = WorkerRegistry::new(10);
    assert!(r.register(params("w", "p", "1.0.0", 1), 5).is_ok());
    assert_eq!(r.count(), 1);
    assert_eq!(r.workers[0].in_flight, 0);
    assert_eq!(r.workers[0].last_heartbeat, 5);
    match r.register(params("w", "p", "1.0.0", 1), 5) {
        Err(e) => assert_eq!(e.to_text(), "worker already registered: w"),
        Ok(()) => panic!("taken"),
    }
    let mut bad = params("v", "p", "1.0.0", 1);
    bad.bearer_ok = false;
    match r.register(bad, 5) {
        Err(e) => {
            assert!(matches!(e, RegisterError::BadBearer));
            assert_eq!(e.to_text(), "bad bearer token");
        }
        Ok(()) => panic!("refused"),
    }
    r.evict("nobody");
    assert_eq!(r.count(), 1);
    r.evict("w");
    assert_eq!(r.count(), 0);
}

#[test]
fn the_least_loaded_eligible_worker_is_picked() {
    let mut r = WorkerRegistry::new(10);
    r.register(params("b", "p", "1.4.0", 3), 0).unwrap();
    r.register(params("a", "p", "1.5.0", 3), 0).unwrap();
    r.register(params("old", "p", "0.9.0", 3), 0).unwrap();
    r.register(params("other", "q", "1.4.0", 3), 0).unwrap();
    assert!(r.has_eligible_worker("p", "^1"));
    assert!(!r.has_eligible_worker("p", "^2"));
    assert!(!r.has_eligible_worker("p", "not a requirement"));
    assert!(!r.has_eligible_worker("z", "*"));
    assert_eq!(r.pick_least_loaded("p", "^1").as_deref(), Some("a"));
    r.record_heartbeat("a", 2, 1);
    assert_eq!(r.pick_least_loaded("p", "^1").as_deref(), Some("b"));
    r.record_heartbeat("b", 3, 1);
    assert_eq!(r.pick_least_loaded("p", "^1").as_deref(), Some("a"));
    r.record_heartbeat("a", 3, 1);
    assert_eq!(r.pick_least_loaded("p", "^1"), None);
    assert_eq!(r.pick_least_loaded("p", "<1.0.0").as_deref(), Some("old"));
}

#[test]
fn silent_workers_are_evicted() {
    let mut r = WorkerRegistry::new(10);
    r.register(params("a", "p", "1.0.0", 1), 0).unwrap();
    r.register(params("b", "p", "1.0.0", 1), 0).unwrap();
    r.record_heartbeat("b", 0, 5);
    r.run_eviction_pass(10);
    assert_eq!(r.count(), 2);
    r.run_eviction_pass(11);
    assert_eq!(r.count(), 1);
    assert_eq!(r.workers[0].worker_id, "b");
}

#[test]
fn full_workers_are_passed_over() {
    let w = |id: &str, in_flight, max| Worker {
        worker_id: id.to_string(),
        providers: vec![],
        tags: vec![],
        max_concurrent: max,
        in_flight,
        last_heartbeat: 0,
    };
    let list = vec![w("a", 1, 1), w("b", 3, 9), w("c", 2, 9), w("d", 0, 9)];
    assert_eq!(least_loaded(&list, &vec![true, true, true, false]), Some(2));
    assert_eq!(least_loaded(&list, &vec![true, false, false, false]), None);
}

#[test]
fn old_workers_are_refused() {
    assert!(worker_version_meets_minimum("0.1.0"));
    assert!(worker_version_meets_minimum("1.0.0"));
    assert!(!worker_version_meets_minimum("0.0.9"));
    assert!(!worker_version_meets_minimum("0.1.0-alpha"));
    assert!(!worker_version_meets_minimum("latest"));
}

#[test]
fn a_channel_opens_with_a_registration() {
    let p = channel(Some(&first(1, "secret", "0.2.0")), 1, "secret").unwrap();
    assert_eq!(p.worker_id, "w");
    assert!(p.bearer_ok);
    assert_eq!(p.worker_version, "0.2.0");
    assert_eq!(p.max_concurrent, 2);
    assert_eq!(p.providers, vec![("aider".to_string(), "1.2.3".to_string())]);
    assert_eq!(p.tags, vec!["gpu"]);

    let e = channel(None, 1, "secret").unwrap_err();
    assert_eq!(e.code, StatusCode::InvalidArgument);
    assert_eq!(e.message, "first message must be Register");
    let e = channel(Some(&first(2, "wrong", "0.0.1")), 1, "secret").unwrap_err();
    assert_eq!(e.code, StatusCode::FailedPrecondition);
    assert_eq!(e.message, "unsupported_protocol_version: worker sent 2, daemon supports 1");
    let e = channel(Some(&first(1, "wrong", "0.0.1")), 1, "secret").unwrap_err();
    assert_eq!(e.code, StatusCode::Unauthenticated);
    assert_eq!(e.message, "invalid bearer token");
    let e = channel(Some(&first(1, "secret", "0.0.1")), 1, "secret").unwrap_err();
    assert_eq!(e.code, StatusCode::FailedPrecondition);
    assert_eq!(e.message, "worker version 0.0.1 below minimum");
    assert!(admission_check(Some(&first(1, "secret", "x")), 1, "secret", true).is_ok());
    let e = registration_refusal(&RegisterError::AlreadyRegistered { worker_id: "w".to_string() });
    assert_eq!(e.code, StatusCode::AlreadyExists);
    assert_eq!(e.message, "worker already registered: w");
}

#[test]
fn messages_go_to_the_registry_or_the_agent() {
    assert!(matches!(
        route(&WorkerMessage::Heartbeat { in_flight: 3 }),
        Route::Heartbeat { in_flight: 3 }
    ));
    match route(&WorkerMessage::TaskFinished { agent_id: "a".to_string() }) {
        Route::Agent { agent_id } => assert_eq!(agent_id, "a"),
        other => panic!("{:?}", other),
    }
    assert!(matches!(route(&WorkerMessage::Other), Route::Drop));
}

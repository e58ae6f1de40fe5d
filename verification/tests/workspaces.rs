use grimoire::rpc::federation::{
    check_ns_entry, handle_agent_lifecycle_federate, handle_ns_federate, handle_topic_federate,
    handle_workspace_federate, handle_workspace_federate_subscribe, handle_workspace_unfederate,
    parse_direction, parse_home, topic_federated, topic_unfederated, valid_ns_name, LifecycleRow,
};
use grimoire::rpc::workspace::{
    finish_workspace_create, handle_memory_delete, handle_memory_get, handle_memory_put,
    handle_workspace_create, MemoryCaps, MemoryChanged, MemoryPut,
};
use grimoire::rpc::RpcFault;
use grimoire::types::{AgentState, StreamEvent};
use grimoire::workspace_db::events::OutboxState;
use grimoire::workspace_db::federation::FederationDirection;
use grimoire::workspace_db::memory::MemoryWriteOutcome;
use grimoire::workspace_db::{
    count_of_row, kind_of_row, AgentRow, Database, Workspace, WorkspaceKind, WorkspaceState,
};
use grimoire::workspace_registry::{
    assign, create, destroy, finish_destroy, list_memory_topics, mail_to_readers,
    publish_memory_topic_mail, remove_orphan_rows, report_orphan_dirs, store_created,
    tell_readers, worktree_add, worktree_added, worktree_remove, write_change_body, CreateFacts,
    GitError, TopicReader, WorkspaceError,
};
use grimoire::workspace_watcher::{
    fanout_to_federated_peers, make_batch, publish_files_topic, publish_workspace_file_change,
    ChangeRecord, DiskEvent, WatchInput, WatchLoop, WatchStep, WorkspaceWatcher,
};

fn local(id: &str, created_at: i64) -> Workspace {
    Workspace {
        id: id.to_string(),
        path: format!("/ws/{}", id),
        repo_path: "/repo".to_string(),
        branch: "main".to_string(),
        state: WorkspaceState::Active,
        created_at,
        kind: WorkspaceKind::Local,
        home_daemon_id: None,
        home_workspace_id: None,
    }
}

fn database() -> Database {
    let mut db = Database::new();
    db.insert_workspace(local("w", 2)).unwrap();
    db.agents.push(AgentRow {
        id: "a".to_string(),
        state: AgentState::Active,
        workspace_id: None,
    });
    db
}

fn owned(list: &[&str]) -> Vec<String> {
    list.iter().map(|s| s.to_string()).collect()
}

#[test]
fn each_workspace_has_its_id() {
    let mut db = database();
    assert!(db.insert_workspace(local("w", 9)).is_err());
    db.insert_workspace(local("v", 1)).unwrap();
    assert_eq!(db.get_workspace("w").unwrap().created_at, 2);
    assert!(db.get_workspace("x").is_none());
    let ids: Vec<String> =
        db.list_workspaces_with_counts().into_iter().map(|e| e.workspace.id).collect();
    assert_eq!(ids, owned(&["v", "w"]));
    db.update_workspace_state("w", WorkspaceState::Destroying);
    assert_eq!(db.get_workspace("w").unwrap().state, WorkspaceState::Destroying);
    db.delete_workspace_row("w");
    assert!(db.get_workspace("w").is_none());
    assert_eq!(kind_of_row("Shadow"), WorkspaceKind::Shadow);
    assert_eq!(kind_of_row("other"), WorkspaceKind::Local);
    assert_eq!(count_of_row(-1), 0);
    assert_eq!(count_of_row(3), 3);
}

#[test]
fn shadows_are_found_by_their_home() {
    let mut db = database();
    db.insert_shadow_workspace("s", "d2", "w2", "main", 5).unwrap();
    assert!(db.insert_shadow_workspace("s2", "d2", "w2", "main", 5).is_err());
    assert_eq!(db.find_shadow_workspace("d2", "w2").as_deref(), Some("s"));
    assert_eq!(db.find_shadow_workspace("d2", "w"), None);
    let paths: Vec<String> = db.list_workspace_paths().into_iter().map(|p| p.id).collect();
    assert_eq!(paths, owned(&["w"]));
}

#[test]
fn agents_are_assigned_once() {
    let mut db = database();
    db.insert_workspace(local("v", 1)).unwrap();
    assert!(assign(&mut db, "w", "a", 7).is_ok());
    assert!(assign(&mut db, "w", "a", 8).is_ok());
    assert_eq!(db.assignments.len(), 1);
    assert_eq!(db.assigned_agents("w"), 1);
    assert_eq!(db.agent_workspace_id("a").as_deref(), Some("w"));
    assert_eq!(db.list_active_assigned_agents("w"), vec![("a".to_string(), AgentState::Active)]);
    assert_eq!(assign(&mut db, "v", "a", 9).unwrap_err().to_text(), "agent_already_assigned");
    assert_eq!(assign(&mut db, "x", "a", 9).unwrap_err().to_text(), "workspace_not_found");
    db.update_workspace_state("v", WorkspaceState::Destroying);
    assert_eq!(assign(&mut db, "v", "b", 9).unwrap_err().to_text(), "workspace_destroying");
}

#[test]
fn workspaces_are_created_from_repositories() {
    let db = database();
    let ok = || CreateFacts {
        name_error: None,
        repo_canonical: Some("/repo".to_string()),
        repo_is_dir: true,
        repo_has_git: true,
        target_exists: false,
    };
    let refused = |name: &str, f: CreateFacts| create(&db, name, &f).unwrap_err().to_text();
    assert!(create(&db, "v", &ok()).is_ok());
    assert_eq!(
        refused("v", CreateFacts { name_error: Some("too_long".to_string()), ..ok() }),
        "invalid_workspace_name:too_long"
    );
    assert_eq!(refused("v", CreateFacts { repo_canonical: None, ..ok() }), "invalid_repo_path");
    assert_eq!(refused("v", CreateFacts { repo_is_dir: false, ..ok() }), "invalid_repo_path");
    assert_eq!(refused("v", CreateFacts { repo_has_git: false, ..ok() }), "not_a_git_repo");
    assert_eq!(refused("w", ok()), "workspace_already_exists");
    assert_eq!(refused("v", CreateFacts { target_exists: true, ..ok() }), "workspace_path_occupied");
    assert!(handle_workspace_create(true).is_ok());
    assert_eq!(handle_workspace_create(false).unwrap_err().message, "invalid_workspace_name");

    let c = worktree_add("/repo", "/ws/v", "main");
    assert_eq!(c.program, "git");
    assert_eq!(c.args, owned(&["-C", "/repo", "worktree", "add", "/ws/v", "main"]));
    let c = worktree_remove("/repo", "/ws/v");
    assert_eq!(c.args, owned(&["-C", "/repo", "worktree", "remove", "--force", "/ws/v"]));

    let w = worktree_added(&Ok(()), "v", "/ws/v", "/repo", "main", 5).unwrap();
    assert_eq!(w.kind, WorkspaceKind::Local);
    assert_eq!(w.state, WorkspaceState::Active);
    let mut db = database();
    match store_created(&mut db, w).unwrap() {
        StreamEvent::WorkspaceCreated { workspace_id, path, branch } => {
            assert_eq!((workspace_id.as_str(), path.as_str(), branch.as_str()), ("v", "/ws/v", "main"));
        }
        other => panic!("{:?}", other),
    }
    assert!(store_created(&mut db, local("v", 1)).is_err());
    let failed = Err(GitError::failed("fatal: no", Some(128)));
    assert_eq!(
        worktree_added(&failed, "v", "/ws/v", "/repo", "main", 5).unwrap_err().to_text(),
        "git_worktree_add_failed:fatal: no"
    );
    assert_eq!(GitError::failed("x", Some(-1)).to_text(), "git failed (exit Some(-1)): x");
    assert_eq!(GitError::not_run("no git").to_text(), "git failed (exit None): no git");
    assert_eq!(GitError::failed(&"e".repeat(5000), None).stderr.len(), 4096);
    assert_eq!(WorkspaceError("x".to_string()).to_text(), "x");
}

#[test]
fn workspaces_in_use_are_not_destroyed() {
    let mut db = database();
    assign(&mut db, "w", "a", 7).unwrap();
    assert_eq!(destroy(&mut db, "w").unwrap_err().to_text(), "workspace_in_use:a");
    assert_eq!(destroy(&mut db, "x").unwrap_err().to_text(), "workspace_not_found");
    db.agents[0].state = AgentState::Complete;
    assert_eq!(destroy(&mut db, "w").unwrap().path, "/ws/w");
    assert_eq!(db.get_workspace("w").unwrap().state, WorkspaceState::Destroying);
    assert_eq!(destroy(&mut db, "w").unwrap_err().to_text(), "workspace_destroying");
    assert!(matches!(
        finish_destroy(&mut db, "w"),
        StreamEvent::WorkspaceDestroyed { ref workspace_id } if workspace_id == "w"
    ));
    assert!(db.get_workspace("w").is_none());
}

#[test]
fn new_workspaces_take_over_memory() {
    let mut db = database();
    db.memory_put_cas("w", "k", b"x".to_vec(), None, "me", 1);
    db.memory_put_cas("w", "k", b"y".to_vec(), None, "me", 1);
    assert!(finish_workspace_create(&mut db, local("v", 1), Some("w"), 5).is_ok());
    assert_eq!(db.memory_get("v", "k"), Some((b"y".to_vec(), 1)));
    assert!(finish_workspace_create(&mut db, local("u", 1), None, 5).is_ok());
    assert!(db.memory_get("u", "k").is_none());
    assert!(finish_workspace_create(&mut db, local("u", 1), Some("w"), 5).is_err());
    assert!(db.memory_get("u", "k").is_none());
}

#[test]
fn nothing_outlives_a_workspace() {
    let mut db = database();
    db.insert_workspace(local("v", 1)).unwrap();
    assign(&mut db, "w", "a", 7).unwrap();
    for ws in ["w", "v"] {
        db.memory_put_cas(ws, "k", b"x".to_vec(), None, "me", 1);
        db.upsert_workspace_federation("f", "peer", ws, FederationDirection::Both, 1);
    }
    db.delete_workspace_row("w");
    assert!(db.assignments.is_empty());
    assert!(db.memory_get("w", "k").is_none());
    assert_eq!(db.memory_get("v", "k"), Some((b"x".to_vec(), 1)));
    assert!(db.list_workspace_federations_for("w").is_empty());
    assert_eq!(db.list_workspace_federations_for("v").len(), 1);
}

#[test]
fn boots_reconcile_rows_and_directories() {
    let mut db = database();
    db.insert_workspace(local("v", 1)).unwrap();
    let rows = db.list_workspace_paths();
    let told = report_orphan_dirs(&owned(&["/ws/w", "/ws/z"]), &rows);
    assert_eq!(told.len(), 1);
    assert!(matches!(
        told[0],
        StreamEvent::WorkspaceOrphanDirDetected { ref path } if path == "/ws/z"
    ));
    let here: Vec<bool> = rows.iter().map(|r| r.id == "w").collect();
    let told = remove_orphan_rows(&mut db, &rows, &here);
    assert_eq!(told.len(), 1);
    assert!(db.get_workspace("v").is_none());
    assert!(db.get_workspace("w").is_some());
}

fn put(db: &mut Database, key: &str, value: &[u8], expected: Option<u64>) -> Result<u64, String> {
    let p = MemoryPut {
        workspace_id: "w".to_string(),
        key: key.to_string(),
        value: value.to_vec(),
        expected_version: expected,
        sender: None,
    };
    let caps = MemoryCaps { value_bytes: 4, total_bytes: 6 };
    let readers = readers_of("w", key);
    let done = handle_memory_put(db, p, true, caps, &readers, 9).map_err(|e| e.message)?;
    let told: Vec<&str> = done.mails[0].iter().map(|m| m.recipient_id.as_str()).collect();
    assert_eq!(told, vec!["reader"]);
    assert!(done.mails[0][0].body.contains("\"op\":\"put\""));
    assert_eq!(done.mails.len(), readers.len());
    Ok(done.version)
}

/// One reader on each topic of a key.
fn readers_of(ws: &str, key: &str) -> Vec<Vec<TopicReader>> {
    list_memory_topics(ws, key)
        .iter()
        .map(|_| vec![TopicReader { agent_id: "reader".to_string(), mail_id: "m".to_string() }])
        .collect()
}

fn delete(
    db: &mut Database,
    key: &str,
    expected: Option<u64>,
    sender: Option<&str>,
) -> Result<Option<MemoryChanged>, RpcFault> {
    handle_memory_delete(db, "w", key, true, expected, sender, &readers_of("w", key), 9)
}

#[test]
fn reads_give_back_what_was_written() {
    let mut db = database();
    assert_eq!(put(&mut db, "a", b"one", None), Ok(1));
    assert_eq!(put(&mut db, "a", b"two", Some(1)), Ok(2));
    assert_eq!(handle_memory_get(&db, "w", "a", true).unwrap(), (b"two".to_vec(), 2));
    assert_eq!(db.memory[0].updated_by, "system");
    assert_eq!(put(&mut db, "a", b"x", Some(1)).unwrap_err(), "cas_conflict:current_version=2");
    assert_eq!(put(&mut db, "b", b"x", Some(3)).unwrap_err(), "cas_conflict:current_version=0");
    assert_eq!(put(&mut db, "b", b"12345", None).unwrap_err(), "memory_value_too_large");
    assert_eq!(put(&mut db, "b", b"1234", None).unwrap_err(), "memory_total_cap_exceeded");
    assert_eq!(put(&mut db, "b", b"123", None), Ok(1));
    assert_eq!(put(&mut db, "a", b"123", None), Ok(3));
    assert_eq!(db.memory_total_size_for_workspace("w"), 6);
    assert_eq!(db.memory_current_version_and_size("w", "b"), (1, 3));
    assert_eq!(handle_memory_get(&db, "w", "z", true).unwrap_err().message, "memory_not_found");
    assert_eq!(handle_memory_get(&db, "w", "a", false).unwrap_err().message, "invalid_memory_key");

    assert!(delete(&mut db, "z", Some(4), None).unwrap().is_none());
    assert_eq!(
        delete(&mut db, "a", Some(1), None).unwrap_err().message,
        "cas_conflict:current_version=3"
    );
    let gone = delete(&mut db, "a", Some(3), Some("me")).unwrap().unwrap();
    assert_eq!(gone.mails.len(), 2);
    assert_eq!(gone.mails[1][0].topic.as_deref(), Some("workspace/w/memory/*"));
    assert!(gone.mails[0][0].body.contains("\"op\":\"delete\""));
    assert_eq!(gone.version, 3);
    assert!(matches!(gone.event, StreamEvent::MemoryDeleted { ref key, .. } if key == "a"));
    assert_eq!(handle_memory_get(&db, "w", "a", true).unwrap_err().message, "memory_not_found");
    assert_eq!(put(&mut db, "a", b"x", Some(0)), Ok(1));

    db.update_workspace_state("w", WorkspaceState::Destroying);
    assert_eq!(put(&mut db, "a", b"x", None).unwrap_err(), "workspace_destroying");
    db.delete_workspace_row("w");
    assert_eq!(put(&mut db, "a", b"x", None).unwrap_err(), "workspace_not_found");
}

#[test]
fn memory_is_listed_by_prefix_and_copied() {
    let mut db = Database::new();
    for key in ["b/2", "a", "b/1", "bb"] {
        db.memory_put_cas("w", key, b"v".to_vec(), None, "me", 1);
    }
    let keys = |db: &Database, ws: &str, p: Option<&str>| {
        db.memory_list_prefix(ws, p).into_iter().map(|i| i.key).collect::<Vec<_>>()
    };
    assert_eq!(keys(&db, "w", None), owned(&["a", "b/1", "b/2", "bb"]));
    assert_eq!(keys(&db, "w", Some("b")), owned(&["b/1", "b/2"]));
    assert_eq!(keys(&db, "w", Some("bb")), owned(&["bb"]));
    db.memory_put_cas("v", "a", b"kept".to_vec(), None, "me", 1);
    db.memory_put_cas("w", "bb", b"v2".to_vec(), None, "me", 1);
    assert_eq!(db.memory_copy_workspace("w", "v", 7), 3);
    assert_eq!(keys(&db, "v", None), owned(&["a", "b/1", "b/2", "bb"]));
    assert_eq!(db.memory_get("v", "a"), Some((b"kept".to_vec(), 1)));
    assert_eq!(db.memory_get("v", "bb").unwrap().0, b"v2".to_vec());
    assert_eq!(
        db.memory_delete_cas("v", "zz", Some(5)),
        MemoryWriteOutcome::Written { version: 0 }
    );
}

#[test]
fn changes_to_memory_are_told() {
    assert_eq!(
        list_memory_topics("w", "a/b"),
        owned(&["workspace/w/memory/a", "workspace/w/memory/a/b", "workspace/w/memory/*"])
    );
    assert_eq!(
        write_change_body("a \"b\"", 2, "put"),
        "{\"key\":\"a \\\"b\\\"\",\"op\":\"put\",\"version\":2}"
    );
    let reader = |a: &str, m: &str| TopicReader { agent_id: a.to_string(), mail_id: m.to_string() };
    let mails = publish_memory_topic_mail(
        "w",
        "a",
        1,
        "delete",
        &vec![vec![reader("x", "m1"), reader("y", "m2")], vec![]],
        5,
    );
    assert_eq!(mails[0].len(), 2);
    assert!(mails[1].is_empty());
    let m = &mails[0][1];
    assert_eq!(m.id, "m2");
    assert_eq!(m.sender_id.as_deref(), Some("workspace://w"));
    assert_eq!(m.topic.as_deref(), Some("workspace/w/memory/a"));
    assert_eq!(m.body, "{\"key\":\"a\",\"op\":\"delete\",\"version\":1}");
    let told = tell_readers(&mails[0]);
    assert!(matches!(
        told[1],
        StreamEvent::MailReceived { ref recipient_id, wake_eligible: true, .. } if recipient_id == "y"
    ));
    assert_eq!(mail_to_readers("w", "t", "b", &vec![reader("x", "m")], 1)[0].body, "b");
}

#[test]
fn federations_only_grow_until_they_end() {
    use_direction("outbound", FederationDirection::Outbound);
    use_direction("inbound", FederationDirection::Inbound);
    use_direction("both", FederationDirection::Both);
    assert_eq!(parse_direction("sideways").unwrap_err().message, "invalid_direction");
    assert_eq!(FederationDirection::of_row("sideways"), FederationDirection::Both);

    let mut db = database();
    let d = handle_workspace_federate(&mut db, "w", "outbound", Some("p"), "f1", 5).unwrap();
    assert_eq!(d, FederationDirection::Outbound);
    assert_eq!(db.workspace_outbound_peers("w"), owned(&["p"]));
    assert!(!db.workspace_federation_inbound_authorized("p", "w"));
    let d = handle_workspace_federate(&mut db, "w", "inbound", Some("p"), "f2", 6).unwrap();
    assert_eq!(d, FederationDirection::Both);
    assert!(db.workspace_federation_inbound_authorized("p", "w"));
    assert_eq!(db.federations.len(), 1);
    assert_eq!(db.federations[0].id, "f1");
    assert_eq!(db.federations[0].created_at, 5);

    let refused = |db: &mut Database, ws: &str, d: &str, p: Option<&str>| {
        handle_workspace_federate(db, ws, d, p, "f", 5).unwrap_err().message
    };
    assert_eq!(refused(&mut db, "x", "sideways", None), "invalid_direction");
    assert_eq!(refused(&mut db, "x", "both", None), "workspace_not_found");
    assert_eq!(refused(&mut db, "w", "both", None), "peer_not_found");

    let made =
        handle_workspace_federate_subscribe(&mut db, "d2", "w2", None, "main", "p", "f3", 7).unwrap();
    assert_eq!(made.local_workspace_id, "w2-shadow");
    assert!(db.workspace_federation_inbound_authorized("p", "w2-shadow"));
    assert_eq!(refused(&mut db, "w2-shadow", "both", Some("p")), "workspace_is_shadow_cannot_federate");
    assert!(handle_workspace_federate_subscribe(&mut db, "d2", "w2", Some("s"), "main", "p", "f4", 7)
        .unwrap_err()
        .message
        .starts_with("insert_shadow: "));
    let order: Vec<String> =
        db.list_workspace_federations().into_iter().map(|f| f.workspace_id).collect();
    assert_eq!(order, owned(&["w", "w2-shadow"]));
    assert_eq!(db.list_workspace_federations_for("w").len(), 1);

    assert_eq!(
        handle_workspace_unfederate(&mut db, "w", None).unwrap_err().message,
        "peer_not_found"
    );
    assert!(handle_workspace_unfederate(&mut db, "w", Some("p")).unwrap());
    assert!(!handle_workspace_unfederate(&mut db, "w", Some("p")).unwrap());
    assert!(db.get_workspace("w2-shadow").is_some());
    assert_eq!(db.delete_workspace_federation("p", "w2-shadow"), 1);
    assert_eq!(db.delete_workspace_federation("p", "w2-shadow"), 0);
    assert!(db.workspace_outbound_peers("w").is_empty());
}

fn use_direction(name: &str, want: FederationDirection) {
    assert_eq!(parse_direction(name).unwrap(), want);
    assert_eq!(want.as_str(), name);
}

#[test]
fn federation_requests_are_checked() {
    assert!(valid_ns_name("team:x"));
    assert!(!valid_ns_name(""));
    assert!(!valid_ns_name("a b"));
    assert!(!valid_ns_name(&"x".repeat(129)));
    assert!(check_ns_entry("ns", "key").is_ok());
    assert_eq!(check_ns_entry("ns", "").unwrap_err().message, "invalid_namespace_or_key");
    assert_eq!(handle_ns_federate("a b", "both").unwrap_err().message, "invalid_namespace");
    assert_eq!(handle_ns_federate("ns", "both").unwrap(), FederationDirection::Both);
    assert_eq!(
        handle_topic_federate("t", false, "both").unwrap_err().message,
        "invalid_topic_name"
    );
    for t in ["workspace/x", "supervisor/x", "wake/x"] {
        assert_eq!(
            handle_topic_federate(t, true, "both").unwrap_err().message,
            "topic_federation_reserved"
        );
    }
    assert_eq!(handle_topic_federate("t", true, "inbound").unwrap(), FederationDirection::Inbound);
    assert!(matches!(
        topic_federated("p", "t", FederationDirection::Both),
        StreamEvent::TopicFederationAdded { ref direction, .. } if direction == "both"
    ));
    assert!(topic_unfederated("p", "t", true).is_some());
    assert!(topic_unfederated("p", "t", false).is_none());
    assert_eq!(parse_home("d/w/x", true).unwrap(), ("d".to_string(), "w/x".to_string()));
    assert_eq!(
        parse_home("d", true).unwrap_err().message,
        "invalid_home_address_expected_daemon/workspace"
    );
    assert_eq!(parse_home("d/", false).unwrap_err().message, "invalid_home_daemon_id");
    assert_eq!(parse_home("d/", true).unwrap_err().message, "invalid_home_workspace_id");
    let row = |id: &str, state| LifecycleRow {
        agent_id: id.to_string(),
        state,
        name: None,
        task: "t".to_string(),
        exit_code: None,
    };
    let rows = vec![row("a", AgentState::Queued), row("b", AgentState::Active)];
    let told = handle_agent_lifecycle_federate(FederationDirection::Both, &rows);
    assert_eq!(told.len(), 1);
    assert_eq!(told[0].agent_id, "b");
    assert_eq!(told[0].old_state, told[0].new_state);
    assert!(handle_agent_lifecycle_federate(FederationDirection::Inbound, &rows).is_empty());
}

#[test]
fn events_wait_until_they_are_delivered() {
    let mut db = Database::new();
    assert_eq!(db.workspace_event_enqueue("o1", "p", "w", b"1".to_vec(), 5), 1);
    assert_eq!(db.workspace_event_enqueue("o2", "p", "w", b"2".to_vec(), 6), 2);
    assert_eq!(db.workspace_event_enqueue("o3", "q", "w", b"3".to_vec(), 6), 1);
    assert!(db.workspace_event_next_outbox("p", 4).is_none());
    let next = db.workspace_event_next_outbox("p", 6).unwrap();
    assert_eq!((next.id.as_str(), next.sender_seq, next.payload), ("o1", 1, b"1".to_vec()));
    db.workspace_event_mark_in_flight("o1");
    assert_eq!(db.workspace_event_next_outbox("p", 6).unwrap().id, "o2");
    db.workspace_event_mark_failed_retry("o1", 50);
    assert_eq!(db.outbox[0].attempts, 1);
    assert_eq!(db.workspace_event_next_outbox("p", 49).unwrap().id, "o2");
    db.workspace_event_mark_in_flight("o2");
    assert_eq!(db.workspace_event_reset_in_flight(), 1);
    assert!(db.outbox.iter().all(|r| r.state == OutboxState::Pending));
    db.workspace_event_mark_delivered("o2");
    assert_eq!(db.outbox.len(), 2);
    db.workspace_event_mark_delivered("o1");
    assert_eq!(db.workspace_event_enqueue("o4", "p", "w", b"4".to_vec(), 7), 3);
    assert_eq!(db.workspace_event_enqueue("o5", "p", "v", b"5".to_vec(), 7), 1);
    assert!(db.workspace_event_inbox_record("d", 1, "w", 5));
    assert!(!db.workspace_event_inbox_record("d", 1, "w", 6));
    assert!(db.workspace_event_inbox_record("d", 2, "w", 6));
    assert!(db.workspace_event_inbox_record("e", 1, "w", 6));
}

fn change(path: &str, kind: &str) -> ChangeRecord {
    ChangeRecord { rel_path: path.to_string(), kind: kind.to_string() }
}

#[test]
fn watchers_tell_of_changes_below_their_root() {
    let w = WorkspaceWatcher::start(
        Ok("/ws/w".to_string()),
        &owned(&["**/target/**", "**/.git/**", "*.swp"]),
    );
    let w = match w {
        Ok(w) => w,
        Err(e) => panic!("{}", e),
    };
    let paths = owned(&[
        "/ws/w/src/a.rs",
        "/ws/w",
        "/elsewhere/b.rs",
        "/ws/w/target/debug/x",
        "/ws/w/.git/index",
        "/ws/w/b.swp",
        "/ws/word/c.rs",
    ]);
    let got = w.changes(DiskEvent::Modify, &paths);
    assert_eq!(got.len(), 1);
    assert_eq!(got[0].rel_path, "src/a.rs");
    assert_eq!(got[0].kind, "modify");
    assert_eq!(w.changes(DiskEvent::Create, &paths)[0].kind, "create");
    assert_eq!(w.changes(DiskEvent::Remove, &paths)[0].kind, "remove");
    assert!(w.changes(DiskEvent::Other, &paths).is_empty());
    assert_eq!(
        WorkspaceWatcher::start(Err("no such dir".to_string()), &vec![]).err().unwrap(),
        "workspace_root_missing: no such dir"
    );
    assert!(WorkspaceWatcher::start(Ok("/".to_string()), &owned(&["a["])).is_err());
}

#[test]
fn batches_are_told_when_quiet() {
    let list = vec![
        change("a", "modify"),
        change("a", "modify"),
        change("b", "create"),
        change("a", "modify"),
    ];
    let b = make_batch(&list, 2);
    assert_eq!(b.paths, owned(&["a", "b"]));
    assert_eq!(b.kinds, owned(&["modify", "create"]));
    assert_eq!(b.truncated_count, 1);
    let mut l = WatchLoop::new(10);
    assert!(matches!(l.take(WatchInput::Quiet), WatchStep::Wait));
    assert!(matches!(l.take(WatchInput::Change(change("a", "modify"))), WatchStep::Wait));
    assert!(matches!(l.take(WatchInput::Change(change("a", "modify"))), WatchStep::Wait));
    match l.take(WatchInput::Quiet) {
        WatchStep::Emit(b) => assert_eq!(b.paths, owned(&["a"])),
        other => panic!("{:?}", other),
    }
    assert!(l.buffer.is_empty());
    assert!(matches!(l.take(WatchInput::Shutdown), WatchStep::Stop));
    assert!(matches!(l.take(WatchInput::Closed), WatchStep::Stop));
}

#[test]
fn changed_files_are_told_here_and_to_peers() {
    let news = publish_workspace_file_change("w", &owned(&["a\"b"]), &owned(&["modify"]), 3);
    assert_eq!(news.topic, "workspace/w/files");
    assert_eq!(
        news.body,
        "{\"kinds\":[\"modify\"],\"paths\":[\"a\\\"b\"],\"truncated\":3}"
    );
    assert!(matches!(
        news.event,
        StreamEvent::WorkspaceFileChanged { truncated_count: 3, .. }
    ));
    let readers = vec![TopicReader { agent_id: "x".to_string(), mail_id: "m".to_string() }];
    assert_eq!(
        publish_files_topic("w", &news, &readers, 5)[0].topic.as_deref(),
        Some("workspace/w/files")
    );
    let mut db = database();
    handle_workspace_federate(&mut db, "w", "both", Some("p"), "f1", 5).unwrap();
    handle_workspace_federate(&mut db, "w", "inbound", Some("q"), "f2", 5).unwrap();
    let woke = fanout_to_federated_peers(&mut db, "w", "é", &owned(&["o1", "o2"]), 9);
    assert_eq!(woke, owned(&["p"]));
    assert_eq!(db.outbox.len(), 1);
    assert_eq!(db.outbox[0].id, "o1");
    assert_eq!(db.outbox[0].payload, "é".as_bytes());
    assert_eq!(db.outbox[0].sender_seq, 1);
}

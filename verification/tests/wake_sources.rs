use chrono::{TimeZone, Utc};
use grimoire::types::AgentState;
use grimoire::wake_sources::cron::{CronError, CronSource};
use grimoire::wake_sources::file_watch::{
    debounced_body, wanted, ChangeKind, FileWatchConfig, FileWatchSource,
};
use grimoire::wake_sources::parent_completion::{ParentCompletionConfig, ParentCompletionSource};
use grimoire::wake_sources::remote_agent_completion::{
    RemoteAgentCompletionConfig, RemoteAgentCompletionSource,
};
use grimoire::wake_sources::remote_file_watch::{RemoteFileWatchConfig, RemoteFileWatchSource};

fn at(y: i32, mo: u32, d: u32, h: u32, mi: u32, s: u32) -> i64 {
    Utc.with_ymd_and_hms(y, mo, d, h, mi, s).unwrap().timestamp()
}

#[test]
fn invalid_cron_returns_err() {
    assert!(CronSource::new("not a cron").is_err());
    assert!(CronSource::new("* * * *").is_err()); // 4 fields
    assert!(CronSource::new("60 * * * *").is_err()); // minute out of range
    assert!(CronSource::new("* */0 * * *").is_err()); // zero step
}

#[test]
fn five_field_cron_accepted() {
    assert!(CronSource::new("0 9 * * 1-5").is_ok());
    assert!(CronSource::new("*/5 * * * *").is_ok());
    assert!(CronSource::new("0,15,30,45 * * * *").is_ok());
}

#[test]
fn evaluate_fires_when_clock_crosses_minute_boundary() {
    let s = CronSource::new("* * * * *").unwrap();
    let t0 = at(2026, 1, 1, 12, 0, 0);
    let t1 = at(2026, 1, 1, 12, 1, 0);
    assert!(s.evaluate(t0, Some(t0), t0).is_none());
    assert!(s.evaluate(t1, Some(t0), t0).is_some());
}

#[test]
fn evaluate_at_most_one_fire() {
    let s = CronSource::new("* * * * *").unwrap();
    let t0 = at(2026, 1, 1, 12, 0, 0);
    let later = at(2026, 1, 1, 13, 0, 0);
    assert!(s.evaluate(later, Some(t0), t0).is_some());
}

#[test]
fn weekday_filter_matches_business_days() {
    // 0 9 * * 1-5: 09:00 UTC, Monday to Friday.
    let s = CronSource::new("0 9 * * 1-5").unwrap();
    // 2026-01-05 is a Monday.
    let mon = at(2026, 1, 5, 8, 59, 0);
    let next = s.schedule.next_after(mon).unwrap();
    assert_eq!(next, at(2026, 1, 5, 9, 0, 0));
    // After Friday 09:00, next is Monday 09:00 (skip Sat/Sun).
    let fri = at(2026, 1, 9, 9, 0, 0);
    let next_fri = s.schedule.next_after(fri).unwrap();
    assert_eq!(next_fri, at(2026, 1, 12, 9, 0, 0));
}

#[test]
fn step_field_matches_every_nth() {
    let s = CronSource::new("*/15 * * * *").unwrap();
    let t = at(2026, 1, 1, 12, 0, 0);
    let next = s.schedule.next_after(t).unwrap();
    assert_eq!(next, at(2026, 1, 1, 12, 15, 0));
}

#[test]
fn list_field_picks_smallest_after() {
    let s = CronSource::new("0,30 * * * *").unwrap();
    let t = at(2026, 1, 1, 12, 5, 0);
    let next = s.schedule.next_after(t).unwrap();
    assert_eq!(next, at(2026, 1, 1, 12, 30, 0));
}

#[test]
fn a_value_with_a_step_runs_to_the_end() {
    let t = at(2026, 1, 1, 12, 40, 0);
    let s = CronSource::new("50/5 * * * *").unwrap();
    assert_eq!(s.schedule.next_after(t), Some(at(2026, 1, 1, 12, 50, 0)));
    assert_eq!(s.schedule.next_after(at(2026, 1, 1, 12, 50, 0)), Some(at(2026, 1, 1, 12, 55, 0)));
    let s = CronSource::new("58/1 * * * *").unwrap();
    assert_eq!(s.schedule.next_after(at(2026, 1, 1, 12, 58, 0)), Some(at(2026, 1, 1, 12, 59, 0)));
    let s = CronSource::new("58 * * * *").unwrap();
    assert_eq!(s.schedule.next_after(at(2026, 1, 1, 12, 58, 0)), Some(at(2026, 1, 1, 13, 58, 0)));
}

#[test]
fn restricted_days_are_joined_by_or() {
    let s = CronSource::new("0 0 13 * 5").unwrap();
    let next = s.schedule.next_after(at(2026, 1, 2, 0, 0, 0)).unwrap();
    assert_eq!(next, at(2026, 1, 9, 0, 0, 0)); // a Friday
    let next = s.schedule.next_after(at(2026, 1, 9, 0, 0, 0)).unwrap();
    assert_eq!(next, at(2026, 1, 13, 0, 0, 0)); // a Tuesday
}

#[test]
fn rare_and_impossible_days() {
    let leap = CronSource::new("0 0 29 2 *").unwrap();
    assert_eq!(
        leap.schedule.next_after(at(2024, 2, 29, 0, 0, 0)).unwrap(),
        at(2028, 2, 29, 0, 0, 0)
    );
    let never = CronSource::new("0 0 31 2 *").unwrap();
    assert_eq!(never.schedule.next_after(at(2026, 1, 1, 0, 0, 0)), None);
}

#[test]
fn instants_before_the_epoch() {
    let s = CronSource::new("* * * * *").unwrap();
    assert_eq!(s.schedule.next_after(-61), Some(-60));
    assert_eq!(s.schedule.next_after(-60), Some(0));
}

#[test]
fn cron_errors_say_why() {
    let fault = |e: &str| CronSource::new(e).unwrap_err();
    assert!(matches!(fault("* * * *"), CronError::FieldCount { got: 4 }));
    assert!(matches!(fault("*/x * * * *"), CronError::BadStep { .. }));
    assert!(matches!(fault("*/0 * * * *"), CronError::ZeroStep));
    assert!(matches!(fault("a-5 * * * *"), CronError::BadRangeStart { .. }));
    assert!(matches!(fault("1-b * * * *"), CronError::BadRangeEnd { .. }));
    assert!(matches!(fault("c * * * *"), CronError::BadValue { .. }));
    match fault("60 * * * *") {
        CronError::OutOfRange { field, min, max } => {
            assert_eq!(field, "60");
            assert_eq!((min, max), (0, 59));
        }
        _ => panic!("unexpected error"),
    }
    assert!(fault("* * * *").to_text().starts_with("invalid_cron"));
}

#[test]
fn missing_root_fails_with_cwd_gone() {
    let cfg = FileWatchConfig {
        globs: vec!["*.rs".into()],
        ignore: vec![],
        root: "/no/such/path/here/zzz".into(),
    };
    match FileWatchSource::new(cfg, None) {
        Err(e) => assert_eq!(e, "cwd_gone"),
        Ok(_) => panic!("expected cwd_gone"),
    }
}

fn watch(root: &str) -> FileWatchSource {
    let cfg = FileWatchConfig {
        globs: vec!["**/*.rs".into()],
        ignore: vec!["target/**".into()],
        root: root.into(),
    };
    match FileWatchSource::new(cfg, Some(root.into())) {
        Ok(s) => s,
        Err(e) => panic!("{}", e),
    }
}

#[test]
fn file_watch_matches_includes_and_excludes_ignore() {
    let s = watch("/data/repo");
    assert!(s.matches("/data/repo/src/main.rs"));
    assert!(!s.matches("/data/repo/target/build.rs"));
}

#[test]
fn changes_elsewhere_do_not_count() {
    let s = watch("/data/repo");
    let paths = vec![
        "/data/repo/a.rs".to_string(),
        "/data/repo/a.md".to_string(),
        "/data/other/b.rs".to_string(),
    ];
    let found = s.matched_changes(ChangeKind::Modify, &paths);
    assert_eq!(found.len(), 1);
    assert_eq!(found[0].path, "/data/repo/a.rs");
    assert!(s.matched_changes(ChangeKind::Other, &paths).is_empty());
    assert!(wanted(false, true));
    assert!(!wanted(true, true));
    assert!(!wanted(false, false));
}

#[test]
fn bad_globs_are_refused() {
    let cfg = FileWatchConfig { globs: vec!["a[".into()], ignore: vec![], root: "/r".into() };
    match FileWatchSource::new(cfg, Some("/r".into())) {
        Err(e) => assert!(e.starts_with("invalid_glob: ")),
        Ok(_) => panic!("expected invalid_glob"),
    }
}

#[test]
fn debounced_bodies_count_changes() {
    let one = debounced_body(1, "a.rs");
    let many = debounced_body(4, "a.rs");
    assert!(one.contains("a.rs"));
    assert!(many.contains("a.rs"));
    assert_ne!(one, many);
}

#[test]
fn fires_only_for_matching_agent_and_state() {
    let s = ParentCompletionSource::new(ParentCompletionConfig {
        parent_id: "parent01".into(),
        states: vec![],
    })
    .unwrap();
    assert!(s.should_fire("parent01", &AgentState::Complete));
    assert!(!s.should_fire("parent01", &AgentState::Failed));
    assert!(!s.should_fire("other", &AgentState::Complete));
}

#[test]
fn parent_completion_multi_state_filter() {
    let s = ParentCompletionSource::new(ParentCompletionConfig {
        parent_id: "parent01".into(),
        states: vec![AgentState::Complete, AgentState::Failed],
    })
    .unwrap();
    assert!(s.should_fire("parent01", &AgentState::Complete));
    assert!(s.should_fire("parent01", &AgentState::Failed));
    assert!(!s.should_fire("parent01", &AgentState::Banished));
}

fn cfg() -> RemoteAgentCompletionConfig {
    RemoteAgentCompletionConfig {
        sender_daemon_id: "homeD".into(),
        remote_agent_id: "agent01".into(),
        states: vec![],
    }
}

#[test]
fn default_target_state_is_complete() {
    let s = RemoteAgentCompletionSource::new(cfg()).unwrap();
    assert!(s.should_fire("homeD", "agent01", &AgentState::Complete));
    assert!(!s.should_fire("homeD", "agent01", &AgentState::Failed));
}

#[test]
fn other_daemon_or_agent_does_not_fire() {
    let s = RemoteAgentCompletionSource::new(cfg()).unwrap();
    assert!(!s.should_fire("otherD", "agent01", &AgentState::Complete));
    assert!(!s.should_fire("homeD", "agent02", &AgentState::Complete));
}

#[test]
fn remote_agent_completion_multi_state_filter() {
    let mut c = cfg();
    c.states = vec![AgentState::Complete, AgentState::Failed];
    let s = RemoteAgentCompletionSource::new(c).unwrap();
    assert!(s.should_fire("homeD", "agent01", &AgentState::Complete));
    assert!(s.should_fire("homeD", "agent01", &AgentState::Failed));
    assert!(!s.should_fire("homeD", "agent01", &AgentState::Active));
}

#[test]
fn empty_ids_rejected() {
    let mut c = cfg();
    c.sender_daemon_id = String::new();
    assert!(RemoteAgentCompletionSource::new(c).is_err());
    let mut c = cfg();
    c.remote_agent_id = String::new();
    assert!(RemoteAgentCompletionSource::new(c).is_err());
}

#[test]
fn empty_workspace_id_rejected() {
    let cfg = RemoteFileWatchConfig {
        workspace_id: String::new(),
        globs: vec!["**/*.rs".into()],
        ignore: vec![],
    };
    assert!(RemoteFileWatchSource::new(cfg).is_err());
}

#[test]
fn remote_file_watch_matches_includes_and_excludes_ignore() {
    let cfg = RemoteFileWatchConfig {
        workspace_id: "shadow-1".into(),
        globs: vec!["**/*.rs".into()],
        ignore: vec!["target/**".into()],
    };
    let s = match RemoteFileWatchSource::new(cfg) {
        Ok(s) => s,
        Err(e) => panic!("{}", e),
    };
    assert!(s.matches("src/main.rs"));
    assert!(!s.matches("target/build.rs"));
    assert!(!s.matches("README.md"));
}

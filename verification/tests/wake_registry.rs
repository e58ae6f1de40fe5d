use grimoire::types::{AgentState, StreamEvent};
use grimoire::wake_registry::{
    arm_one, armed_event, fire, parent_fire, register, replay_on_boot, retired_event,
    send_wake_mail, test_fire, tick_cron, validate_config, ArmedSource, FireAction, Gathered, WakeConfig,
    WakeSource, WakeSourceKind, WakeSourceState,
};
use grimoire::wake_sources::cron::CronConfig;
use grimoire::wake_sources::file_watch::FileWatchConfig;
use grimoire::wake_sources::parent_completion::{ParentCompletionConfig, ParentCompletionSource};

fn cron(expr: &str) -> CronConfig {
    CronConfig { expr: expr.to_string() }
}

fn row(created_at: i64, last_fired_at: Option<i64>) -> WakeSource {
    let mut r = register("a1", WakeSourceKind::Cron, "{}", "0123456789", created_at);
    r.last_fired_at = last_fired_at;
    r
}

#[test]
fn a_new_source_is_armed() {
    let r = register("a1", WakeSourceKind::FileWatch, "{\"x\":1}", "0123456789", 40);
    assert_eq!(r.id, "wake_01234567");
    assert_eq!(r.agent_id, "a1");
    assert_eq!(r.kind, WakeSourceKind::FileWatch);
    assert_eq!(r.config_json, "{\"x\":1}");
    assert_eq!(r.state, WakeSourceState::Armed);
    assert_eq!(r.fire_count, 0);
    assert_eq!(r.created_at, 40);
    match armed_event(&r, None) {
        StreamEvent::WakeSourceRegistered { wake_id, kind, .. } => {
            assert_eq!(wake_id, "wake_01234567");
            assert_eq!(kind, "file_watch");
        }
        other => panic!("{:?}", other),
    }
    match armed_event(&r, Some("cwd_gone")) {
        StreamEvent::WakeSourceFailed { reason, .. } => assert_eq!(reason, "cwd_gone"),
        other => panic!("{:?}", other),
    }
    match retired_event("w", "a", true) {
        StreamEvent::WakeSourceRetired { reason, .. } => assert_eq!(reason, "agent_banished"),
        other => panic!("{:?}", other),
    }
    match retired_event("w", "a", false) {
        StreamEvent::WakeSourceRetired { reason, .. } => assert_eq!(reason, "user_removed"),
        other => panic!("{:?}", other),
    }
}

#[test]
fn sources_are_armed_from_their_configuration() {
    let armed = arm_one(WakeSourceKind::Cron, Ok(WakeConfig::Cron(cron("0 9 * * *"))));
    assert!(matches!(armed, Ok(ArmedSource::Cron(_))));
    assert!(validate_config(WakeSourceKind::Cron, Ok(WakeConfig::Cron(cron("0 9 * *")))).is_err());
    let watch = FileWatchConfig {
        globs: vec!["**/*.rs".to_string()],
        ignore: vec![],
        root: "/w".to_string(),
    };
    let armed = arm_one(
        WakeSourceKind::FileWatch,
        Ok(WakeConfig::FileWatch(watch, Some("/w".to_string()))),
    );
    match armed {
        Ok(ArmedSource::FileWatch(s)) => assert!(s.matches("/w/src/a.rs")),
        _ => panic!("not armed"),
    }
    let parent = ParentCompletionConfig { parent_id: "p".to_string(), states: vec![] };
    assert!(arm_one(
        WakeSourceKind::ParentCompletion,
        Ok(WakeConfig::ParentCompletion(parent))
    )
    .is_ok());
    for (kind, want) in [
        (WakeSourceKind::Cron, "invalid_cron_config_json: eof"),
        (WakeSourceKind::FileWatch, "invalid_file_watch_config_json: eof"),
        (WakeSourceKind::ParentCompletion, "invalid_parent_completion_config_json: eof"),
    ] {
        assert_eq!(validate_config(kind, Err("eof".to_string())).unwrap_err(), want);
    }
}

#[test]
fn a_fire_sends_mail_unless_rate_limited() {
    let r = row(0, None);
    assert!(matches!(fire(None, "b", None, true, "abcdefgh", 9), FireAction::NotFound));
    match fire(Some(&r), "b", None, false, "abcdefgh", 9) {
        FireAction::Denied { event: StreamEvent::WakeSourceFailed { wake_id, reason, .. } } => {
            assert_eq!(wake_id, "wake_01234567");
            assert_eq!(reason, "rate_limited");
        }
        other => panic!("{:?}", other),
    }
    match fire(Some(&r), "b", Some("webhook"), true, "abcdefgh", 9) {
        FireAction::Send { mail, received, fired } => {
            assert_eq!(mail.id, "wmabcdef");
            assert_eq!(mail.recipient_id, "a1");
            assert_eq!(mail.sender_id.as_deref(), Some("wake://wake_01234567"));
            assert_eq!(mail.body, "b");
            assert!(matches!(received, StreamEvent::MailReceived { .. }));
            match fired {
                StreamEvent::WakeSourceFired { mail_id, via, .. } => {
                    assert_eq!(mail_id, "wmabcdef");
                    assert_eq!(via.as_deref(), Some("webhook"));
                }
                other => panic!("{:?}", other),
            }
        }
        other => panic!("{:?}", other),
    }
}

#[test]
fn a_test_fire_passes_the_limiter() {
    let r = row(0, None);
    match test_fire(Some(&r), "abcdefgh", 9) {
        FireAction::Send { mail, fired, .. } => {
            assert_eq!(mail.body, "[wake_test] manual fire of wake_01234567");
            match fired {
                StreamEvent::WakeSourceFired { via, .. } => assert_eq!(via.as_deref(), Some("test")),
                other => panic!("{:?}", other),
            }
        }
        other => panic!("{:?}", other),
    }
    assert!(matches!(test_fire(None, "abcdefgh", 9), FireAction::NotFound));
    let (mail, _) = send_wake_mail("w", "a", "body", "abcdefgh", 3);
    assert_eq!(mail.sender_id.as_deref(), Some("wake://w"));
    assert_eq!(mail.created_at, 3);
}

#[test]
fn parents_that_end_wake_their_children() {
    let s = ParentCompletionSource {
        config: ParentCompletionConfig { parent_id: "p".to_string(), states: vec![] },
    };
    let m = parent_fire(&s, "w", "p", AgentState::Complete).unwrap();
    assert_eq!(m.wake_id, "w");
    assert_eq!(m.body, "[parent p -> complete]");
    assert_eq!(m.via, None);
    assert!(parent_fire(&s, "w", "q", AgentState::Complete).is_none());
    assert!(parent_fire(&s, "w", "p", AgentState::Failed).is_none());
}

#[test]
fn due_crons_fire_with_the_time() {
    // 2026-01-05T08:59:00Z, a Monday.
    let start = 1_767_603_540;
    let c = cron("0 9 * * *");
    assert_eq!(tick_cron(&row(start, None), Some(&c), start + 59, 0), None);
    assert_eq!(
        tick_cron(&row(start, None), Some(&c), start + 60, 500_000_000).as_deref(),
        Some("[cron] 0 9 * * * fired at 2026-01-05T09:00:00.500+00:00")
    );
    assert_eq!(tick_cron(&row(start, Some(start + 60)), Some(&c), start + 90, 0), None);
    assert_eq!(tick_cron(&row(start, None), None, start + 60, 0), None);
    assert_eq!(tick_cron(&row(start, None), Some(&cron("bad")), start + 60, 0), None);
    let mut other = row(start, None);
    other.kind = WakeSourceKind::FileWatch;
    assert_eq!(tick_cron(&other, Some(&c), start + 60, 0), None);
}

#[test]
fn missed_ticks_fire_once_on_boot() {
    let start = 1_767_603_540;
    let c = cron("0 9 * * *");
    let ten_days = 864_000;
    assert_eq!(
        replay_on_boot(&row(start, None), Some(&c), start + ten_days).as_deref(),
        Some("[catch-up] cron 0 9 * * * (last fired: None)")
    );
    assert_eq!(
        replay_on_boot(&row(0, Some(start)), Some(&c), start + ten_days).as_deref(),
        Some("[catch-up] cron 0 9 * * * (last fired: Some(1767603540))")
    );
    assert_eq!(replay_on_boot(&row(start, None), Some(&c), start + 30), None);
}

#[test]
fn gathered_changes_fire_as_one() {
    let mut g = Gathered::new();
    assert!(g.close("w").is_none());
    assert!(g.change("a.rs"));
    assert!(!g.change("b.rs"));
    assert!(!g.change("a.rs"));
    let m = g.close("w").unwrap();
    assert_eq!(m.wake_id, "w");
    assert_eq!(m.body, "[file-watch] 3 changes; first: a.rs");
    assert_eq!(m.via, None);
    assert!(g.close("w").is_none());
}

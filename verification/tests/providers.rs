use grimoire::providers::claude::{select_result, select_session, ClaudeEvent, ClaudeProvider};
use grimoire::providers::pi::{select_text, settle, PiEvent, PiPart, PiProvider};
use grimoire::providers::plain_text::{PlainTextProvider, ProviderConfig, AGENTS_MD_BUDGET_BYTES};
use grimoire::providers::{OutputFormat, ResumeStrategy};

fn claude() -> ClaudeProvider {
    ClaudeProvider::new("agent-cli".to_string())
}

#[test]
fn claude_capabilities() {
    let p = claude();
    let caps = p.capabilities();
    assert!(caps.supports_resume);
    assert!(caps.supports_model_selection);
    assert_eq!(caps.output_format, OutputFormat::StreamJson);
}

#[test]
fn extract_session_id_valid() {
    let p = claude();
    let line = r#"{"type":"system","session_id":"abc123","model":"sonnet"}"#;
    assert_eq!(p.extract_session_id(line), Some("abc123".to_string()));
}

#[test]
fn extract_session_id_non_system() {
    let p = claude();
    let line = r#"{"type":"assistant","message":"hello"}"#;
    assert_eq!(p.extract_session_id(line), None);
}

#[test]
fn extract_session_id_malformed() {
    let p = claude();
    assert_eq!(p.extract_session_id("not json"), None);
    assert_eq!(p.extract_session_id(""), None);
}

#[test]
fn extract_result_valid() {
    let p = claude();
    let lines = vec![
        r#"{"type":"assistant","message":"thinking"}"#.to_string(),
        r#"{"type":"result","result":"the answer"}"#.to_string(),
    ];
    assert_eq!(p.extract_result(&lines), Some("the answer".to_string()));
}

#[test]
fn claude_extract_result_empty() {
    let p = claude();
    assert_eq!(p.extract_result(&vec![]), None);
}

#[test]
fn extract_result_no_result_event() {
    let p = claude();
    let lines = vec![r#"{"type":"assistant","message":"hello"}"#.to_string()];
    assert_eq!(p.extract_result(&lines), None);
}

#[test]
fn claude_takes_the_last_result() {
    let lines = vec![
        r#"{"type":"result","result":"first"}"#.to_string(),
        r#"{"type":"result","result":"second"}"#.to_string(),
        r#"{"type":"result"}"#.to_string(),
        r#"{"type":"result","result":7}"#.to_string(),
        "noise".to_string(),
    ];
    assert_eq!(claude().extract_result(&lines).as_deref(), Some("second"));
}

#[test]
fn claude_selects_from_members() {
    assert_eq!(
        select_session(&Some("system".to_string()), Some("s".to_string())).as_deref(),
        Some("s")
    );
    assert_eq!(select_session(&Some("system".to_string()), None), None);
    assert_eq!(select_session(&None, Some("s".to_string())), None);
    let event = |kind: &str, result: Option<&str>| ClaudeEvent {
        kind: Some(kind.to_string()),
        result: result.map(str::to_string),
    };
    let events = vec![event("result", Some("a")), event("user", Some("b"))];
    assert_eq!(select_result(&events).as_deref(), Some("a"));
}

#[test]
fn claude_session_id_is_unescaped() {
    let line = r#"{"type":"system","session_id":"a\nb"}"#;
    assert_eq!(claude().extract_session_id(line).as_deref(), Some("a\nb"));
}

#[test]
fn claude_command_lines() {
    let p = claude();
    assert_eq!(p.resume_strategy(), ResumeStrategy::Native);
    let tools = "Bash(grim notify *),Bash(grim mail *),Bash(grim memory *)";
    let c = p.spawn("do it", "/work", Some("sonnet"));
    assert_eq!(c.program, "agent-cli");
    assert_eq!(c.cwd.as_deref(), Some("/work"));
    assert_eq!(
        c.args,
        vec![
            "--print", "--output-format", "stream-json", "--verbose", "--allowedTools", tools, "-p",
            "do it", "--model", "sonnet",
        ]
    );
    let c = p.spawn_resume("sid", "go on", "/work");
    assert_eq!(
        c.args,
        vec![
            "--print", "--output-format", "stream-json", "--verbose", "--allowedTools", tools,
            "--resume", "sid", "-p", "go on",
        ]
    );
}

#[test]
fn capabilities_are_native_resume() {
    let p = PiProvider::new("pi".into());
    assert!(p.capabilities().supports_resume);
    assert_eq!(p.resume_strategy(), ResumeStrategy::Native);
}

#[test]
fn extracts_assistant_text_from_message_end() {
    let p = PiProvider::new("pi".into());
    let lines = vec![
        r#"{"type":"session","id":"x"}"#.to_string(),
        r#"{"type":"message_start","message":{"role":"assistant","content":[]}}"#.to_string(),
        r#"{"type":"message_end","message":{"role":"assistant","content":[{"type":"text","text":"hello world"}]}}"#.to_string(),
    ];
    assert_eq!(p.extract_result(&lines).as_deref(), Some("hello world"));
}

#[test]
fn extract_result_none_without_assistant_message() {
    let p = PiProvider::new("pi".into());
    let lines = vec![r#"{"type":"agent_start"}"#.to_string()];
    assert_eq!(p.extract_result(&lines), None);
}

#[test]
fn extracts_session_id_from_real_session_event() {
    let p = PiProvider::new("pi".into());
    let line = r#"{"type":"session","version":3,"id":"019e50f1-9a84-74b3-843e-8b435cbd9059","timestamp":"2026-05-22T18:27:51.556Z","cwd":"/tmp/x"}"#;
    assert_eq!(
        p.extract_session_id(line).as_deref(),
        Some("019e50f1-9a84-74b3-843e-8b435cbd9059")
    );
    assert_eq!(p.extract_session_id(r#"{"type":"agent_start"}"#), None);
}

#[test]
fn pi_joins_text_parts_and_looks_back() {
    let p = PiProvider::new("pi".into());
    let lines = vec![
        r#"{"type":"turn_end","message":{"role":"assistant","content":[{"type":"text","text":"a"},{"type":"tool","text":"x"},{"type":"text","text":"b"}]}}"#.to_string(),
        r#"{"type":"message_end","message":{"role":"user","content":[{"type":"text","text":"c"}]}}"#.to_string(),
        r#"{"type":"message_end","message":{"role":"assistant","content":[]}}"#.to_string(),
        "garbage".to_string(),
    ];
    assert_eq!(p.extract_result(&lines).as_deref(), Some("ab"));
}

#[test]
fn pi_passes_over_a_turn_without_message() {
    let p = PiProvider::new("pi".into());
    let good = r#"{"type":"message_end","message":{"role":"assistant","content":[{"type":"text","text":"a"}]}}"#;
    let bare = r#"{"type":"turn_end"}"#;
    assert_eq!(p.extract_result(&vec![good.to_string(), bare.to_string()]).as_deref(), Some("a"));
    let nobody = r#"{"type":"turn_end","message":{"content":"a"}}"#;
    assert_eq!(p.extract_result(&vec![good.to_string(), nobody.to_string()]).as_deref(), Some("a"));
}

#[test]
fn pi_ends_at_a_message_without_parts() {
    let p = PiProvider::new("pi".into());
    let good = r#"{"type":"message_end","message":{"role":"assistant","content":[{"type":"text","text":"a"}]}}"#;
    for last in [
        r#"{"type":"turn_end","message":{"role":"assistant","content":"a"}}"#,
        r#"{"type":"message_end","message":{"role":"assistant"}}"#,
    ] {
        assert_eq!(p.extract_result(&vec![good.to_string(), last.to_string()]), None);
        assert_eq!(
            p.extract_result(&vec![last.to_string(), good.to_string()]).as_deref(),
            Some("a")
        );
    }
    let without = PiEvent {
        kind: Some("turn_end".to_string()),
        role: Some("assistant".to_string()),
        content: None,
    };
    let part = PiPart { kind: Some("text".to_string()), text: Some("a".to_string()) };
    let with = PiEvent {
        kind: Some("turn_end".to_string()),
        role: Some("assistant".to_string()),
        content: Some(vec![part]),
    };
    let mut events = vec![with];
    assert_eq!(select_text(&events).as_deref(), Some("a"));
    events.push(without);
    assert_eq!(select_text(&events), None);
}

#[test]
fn pi_settles_events() {
    let event = |kind: &str, role: Option<&str>, content: Option<Vec<PiPart>>| PiEvent {
        kind: Some(kind.to_string()),
        role: role.map(|r| r.to_string()),
        content,
    };
    let text = |s: &str| PiPart { kind: Some("text".to_string()), text: Some(s.to_string()) };
    assert_eq!(settle(&event("session", Some("assistant"), Some(vec![text("x")]))), None);
    assert_eq!(settle(&event("turn_end", None, None)), None);
    assert_eq!(settle(&event("turn_end", Some("user"), Some(vec![text("x")]))), None);
    assert_eq!(settle(&event("turn_end", Some("assistant"), None)), None);
    assert_eq!(settle(&event("turn_end", Some("assistant"), Some(vec![]))), None);
    assert_eq!(
        settle(&event("message_end", Some("assistant"), Some(vec![text("x"), text("y")]))),
        Some("xy".to_string())
    );
}

#[test]
fn pi_command_lines() {
    let p = PiProvider::new("pi".into());
    assert_eq!(p.name(), "pi");
    assert_eq!(p.spawn("t", "/w", None).args, vec!["-p", "--mode", "json", "t"]);
    assert_eq!(
        p.spawn("t", "/w", Some("m")).args,
        vec!["-p", "--mode", "json", "--model", "m", "t"]
    );
    assert_eq!(
        p.spawn_resume("id", "msg", "/w").args,
        vec!["--session", "id", "-p", "--mode", "json", "msg"]
    );
}

fn test_provider() -> PlainTextProvider {
    PlainTextProvider::new(
        "test".to_string(),
        ProviderConfig {
            binary: "echo".to_string(),
            args_template: vec!["--msg".to_string(), "{task}".to_string()],
            env: vec![],
            sandbox: None,
        },
    )
}

#[test]
fn plain_text_capabilities() {
    let p = test_provider();
    let caps = p.capabilities();
    assert!(!caps.supports_resume);
    assert!(!caps.supports_model_selection);
    assert_eq!(caps.output_format, OutputFormat::PlainText);
}

#[test]
fn build_args_substitution() {
    let p = test_provider();
    let args = p.build_args("hello world");
    assert_eq!(args, vec!["--msg", "hello world"]);
}

#[test]
fn extract_result_returns_last_lines() {
    let p = test_provider();
    let lines: Vec<String> = (0..3).map(|i| format!("line {i}")).collect();
    let result = p.extract_result(&lines).unwrap();
    assert_eq!(result, "line 0\nline 1\nline 2");
}

#[test]
fn plain_text_keeps_the_last_lines() {
    let lines: Vec<String> = (0..60).map(|i| format!("{i}")).collect();
    let result = test_provider().extract_result(&lines).unwrap();
    assert!(result.starts_with("10\n11\n"));
    assert!(result.ends_with("\n59"));
    assert_eq!(result.lines().count(), 50);
}

#[test]
fn plain_text_extract_result_empty() {
    let p = test_provider();
    assert!(p.extract_result(&vec![]).is_none());
}

#[test]
fn extract_session_id_always_none() {
    let p = test_provider();
    assert!(p.extract_session_id("anything").is_none());
}

#[test]
fn compose_task_without_agents_md_is_identity() {
    assert_eq!(PlainTextProvider::compose_task(None, "do x"), "do x");
}

#[test]
fn compose_task_prepends_agents_md() {
    let composed = PlainTextProvider::compose_task(Some("Use tabs.\n"), "do x");
    assert!(composed.starts_with("## Project instructions (AGENTS.md)\nUse tabs."));
    assert!(composed.ends_with("## Task\ndo x"));
}

#[test]
fn compose_task_truncates_oversized_agents_md() {
    let composed = PlainTextProvider::compose_task(Some(&"x".repeat(20_000)), "do x");
    assert!(composed.contains("[truncated]"));
    assert!(composed.len() < 10_000);
}

#[test]
fn compose_task_ignores_empty_agents_md() {
    assert_eq!(PlainTextProvider::compose_task(Some("  \n"), "do x"), "do x");
}

#[test]
fn instructions_are_cut_between_characters() {
    let composed = PlainTextProvider::compose_task(Some(&"é".repeat(5_000)), "t");
    let shown = composed
        .strip_prefix("## Project instructions (AGENTS.md)\n")
        .unwrap()
        .strip_suffix("\n[truncated]\n\n## Task\nt")
        .unwrap();
    assert_eq!(shown.len(), AGENTS_MD_BUDGET_BYTES);
    assert!(shown.chars().all(|c| c == 'é'));
    let composed = PlainTextProvider::compose_task(Some(&format!("x{}", "é".repeat(5_000))), "t");
    let shown = composed
        .strip_prefix("## Project instructions (AGENTS.md)\n")
        .unwrap()
        .strip_suffix("\n[truncated]\n\n## Task\nt")
        .unwrap();
    assert_eq!(shown.len(), AGENTS_MD_BUDGET_BYTES - 1);
}

#[test]
fn resume_not_supported() {
    let p = test_provider();
    let r = p.spawn_resume("sid", "msg", "/tmp");
    assert!(r.is_err());
    assert_eq!(r.unwrap_err(), "Provider 'test' does not support session resume");
}

#[test]
fn plain_text_spawn_sets_variables() {
    let p = PlainTextProvider::new(
        "aider".to_string(),
        ProviderConfig {
            binary: "aider".to_string(),
            args_template: vec!["-m".to_string(), "<{task}>".to_string()],
            env: vec![("K".to_string(), "v".to_string())],
            sandbox: None,
        },
    );
    let c = p.spawn("fix", "/w", None);
    assert_eq!(c.program, "aider");
    assert_eq!(c.args, vec!["-m", "<fix>"]);
    assert_eq!(c.env, vec![("K".to_string(), Some("v".to_string()))]);
    assert_eq!(c.cwd.as_deref(), Some("/w"));
}

use grimoire::scroll_parser::{accept_judged, parse_scroll, walk, Judgement, ScrollError};

/// Reads a threshold as a floating-point number.
fn judge(value: &str) -> Judgement {
    match value.parse::<f64>() {
        Err(_) => Judgement::NotANumber,
        Ok(v) if (0.0..=1.0).contains(&v) => Judgement::Within,
        Ok(v) => Judgement::OutOfRange { shown: v.to_string() },
    }
}

#[test]
fn test_parse_basic_scroll() {
    let content = r"# Scroll: Test Project

## Task: Setup Database
- files: src/db.rs, migrations/
- depends: (none)

Create the database schema with users and sessions tables.

## Task: API Routes
- files: src/routes.rs
- depends: Setup Database

Implement REST API endpoints for user management.

## Task: Frontend
- provider: aider
- files: frontend/src/App.tsx
- depends: API Routes

Build the frontend login page.
";

    let spec = parse_scroll(content, judge).unwrap();
    assert_eq!(spec.name, "Test Project");
    assert_eq!(spec.tasks.len(), 3);

    assert_eq!(spec.tasks[0].name, "Setup Database");
    assert_eq!(
        spec.tasks[0].file_patterns,
        vec!["src/db.rs", "migrations/"]
    );
    assert!(spec.tasks[0].depends_on.is_empty());

    assert_eq!(spec.tasks[1].name, "API Routes");
    assert_eq!(spec.tasks[1].depends_on, vec!["Setup Database"]);

    assert_eq!(spec.tasks[2].name, "Frontend");
    assert_eq!(spec.tasks[2].provider.as_deref(), Some("aider"));
    assert_eq!(spec.tasks[2].depends_on, vec!["API Routes"]);
}

#[test]
fn peer_directive_attached_to_task() {
    let content = r"# Scroll: Federated

## Task: Remote Build
- peer: build-bot

Run the build on the build-bot peer.
";
    let spec = parse_scroll(content, judge).unwrap();
    assert_eq!(spec.tasks.len(), 1);
    assert_eq!(spec.tasks[0].peer.as_deref(), Some("build-bot"));
}

#[test]
fn test_invalid_dependency() {
    let content = r"# Scroll: Bad Deps

## Task: Task A
- depends: Task C

Do something.
";
    let result = parse_scroll(content, judge);
    assert!(result.is_err());
    assert!(result.unwrap_err().to_text().contains("doesn't exist"));
}

#[test]
fn test_empty_scroll() {
    let content = "# Scroll: Empty\n";
    assert!(parse_scroll(content, judge).is_err());
}

#[test]
fn test_all_metadata() {
    let content = r"# Scroll: Full Meta

## Task: Task A
- files: src/a.rs, src/b.rs
- depends: (none)
- provider: aider
- model: gpt-4
- cwd: /home/user

Do task A with all metadata.
";
    let spec = parse_scroll(content, judge).unwrap();
    let task = &spec.tasks[0];
    assert_eq!(task.provider.as_deref(), Some("aider"));
    assert_eq!(task.model.as_deref(), Some("gpt-4"));
    assert_eq!(task.cwd.as_deref(), Some("/home/user"));
    assert_eq!(task.file_patterns, vec!["src/a.rs", "src/b.rs"]);
}

#[test]
fn test_multi_dependency() {
    let content = r"# Scroll: Multi Dep

## Task: A

Do A.

## Task: B

Do B.

## Task: C
- depends: A, B

Do C after both A and B.
";
    let spec = parse_scroll(content, judge).unwrap();
    assert_eq!(spec.tasks[2].depends_on, vec!["A", "B"]);
}

#[test]
fn test_self_dependency() {
    let content = r"# Scroll: Self Dep

## Task: A
- depends: A

Do A.
";
    let result = parse_scroll(content, judge);
    assert!(result.is_err());
    assert!(
        result
            .unwrap_err()
            .to_text()
            .contains("cannot depend on itself")
    );
}

#[test]
fn test_no_heading() {
    let content = "Just some text without a heading\n";
    assert!(parse_scroll(content, judge).is_err());
}

#[test]
fn test_duplicate_task_names() {
    let content = r"# Scroll: Dup Names

## Task: Task A

Do A.

## Task: Task A

Do A again.
";
    let spec = parse_scroll(content, judge).unwrap();
    assert_eq!(spec.tasks.len(), 2);
}

#[test]
fn test_empty_scroll_name() {
    let content = "# Scroll:\n\n## Task: A\n\nDo A.\n";
    let result = parse_scroll(content, judge);
    assert!(result.is_err());
    assert!(result.unwrap_err().to_text().contains("empty"));
}

#[test]
fn test_task_no_task_text() {
    let content = r"# Scroll: No Task

## Task: Empty
- files: src/foo.rs
";
    let result = parse_scroll(content, judge);
    assert!(result.is_err());
    assert!(result.unwrap_err().to_text().contains("no task text"));
}

#[test]
fn test_workspace_directives() {
    let content = r"# Scroll: Workspaced
- workspace: my-ws
- workspace_repo: github.com/x/y
- workspace_branch: main

## Task: A

Do A.
";
    let spec = parse_scroll(content, judge).unwrap();
    assert_eq!(spec.workspace.as_deref(), Some("my-ws"));
    assert_eq!(spec.workspace_repo.as_deref(), Some("github.com/x/y"));
    assert_eq!(spec.workspace_branch.as_deref(), Some("main"));
}

#[test]
fn each_fault_has_its_error() {
    assert!(matches!(parse_scroll("text\n", judge), Err(ScrollError::MissingHeading)));
    assert!(matches!(
        parse_scroll("# Scroll:\n\n## Task: A\n\nDo A.\n", judge),
        Err(ScrollError::EmptyName)
    ));
    assert!(matches!(parse_scroll("# Scroll: S\n", judge), Err(ScrollError::NoTasks)));
    let e = parse_scroll("# Scroll: S\n\n## Task: T\n- files: a\n", judge).unwrap_err();
    assert!(matches!(e, ScrollError::NoTaskText { .. }));
    let e = parse_scroll("# Scroll: S\n\n## Task: T\n- depends: T\n\nGo.\n", judge).unwrap_err();
    assert!(matches!(e, ScrollError::SelfDependency { .. }));
    let e = parse_scroll("# Scroll: S\n\n## Task: T\n- depends: U\n\nGo.\n", judge).unwrap_err();
    match &e {
        ScrollError::UnknownDependency { task, dependency, available } => {
            assert_eq!(task, "T");
            assert_eq!(dependency, "U");
            assert_eq!(available, &vec!["T".to_string()]);
        }
        _ => panic!("unexpected error"),
    }
    assert!(e.to_text().contains("[\"T\"]"));
}

#[test]
fn prompt_keeps_lists_after_the_first_paragraph() {
    let content = "# Scroll: S\n\n## Task: T\n- model: m\n\nFirst `code`\nline.\n\n- step one\n- step two\n";
    let spec = parse_scroll(content, judge).unwrap();
    let prompt = &spec.tasks[0].prompt;
    assert!(prompt.starts_with("First"));
    assert!(prompt.contains("code"));
    assert!(prompt.contains("step one"));
    assert!(prompt.contains("step two"));
    assert_eq!(spec.tasks[0].model.as_deref(), Some("m"));
}

#[test]
fn thresholds_are_listed_as_written() {
    let content = "# Scroll: S\n\n## Task: T\n- verify: checks\n- verify_threshold: 0.8\n\nGo.\n";
    let doc = walk(content);
    assert_eq!(doc.thresholds.len(), 1);
    assert_eq!(doc.thresholds[0].task, "T");
    assert_eq!(doc.thresholds[0].value, "0.8");
    let spec = parse_scroll(content, judge).unwrap();
    assert_eq!(spec.tasks[0].verify.as_deref(), Some("checks"));
    assert_eq!(spec.tasks[0].verify_threshold.as_deref(), Some("0.8"));
}

#[test]
fn headings_in_order_name_tasks() {
    let content = "# Scroll: One\n\n# Scroll: Two\n\n## Task: B\n\nb\n\n## Notes\n\nx\n\n## Task: A\n\na\n";
    let spec = parse_scroll(content, judge).unwrap();
    let names: Vec<&str> = spec.tasks.iter().map(|t| t.name.as_str()).collect();
    assert_eq!(names, vec!["B", "A"]);
}

#[test]
fn thresholds_lie_between_zero_and_one() {
    let parse = |v: &str| {
        let content = format!("# Scroll: S\n\n## Task: T\n- verify_threshold: {}\n\nGo.\n", v);
        parse_scroll(&content, judge).map(|s| s.tasks[0].verify_threshold.clone())
    };
    assert_eq!(parse("1").unwrap().as_deref(), Some("1"));
    assert!(matches!(parse("7"), Err(ScrollError::ThresholdOutOfRange { ref shown, .. }) if shown == "7"));
    assert!(matches!(parse("high"), Err(ScrollError::ThresholdNotANumber { ref value, .. }) if value == "high"));
}

#[test]
fn bad_thresholds_are_refused_first() {
    let content = "## Task: T\n- verify_threshold: 0.5\n- verify_threshold: high\n\n## Task: U\n- verify_threshold: 2\n\nGo.\n";
    let judged = vec![
        Judgement::Within,
        Judgement::NotANumber,
        Judgement::OutOfRange { shown: "2".to_string() },
    ];
    let e = accept_judged(walk(content), &judged).unwrap_err();
    assert_eq!(
        e.to_text(),
        "Task 'T': verify_threshold 'high' is not a number between 0.0 and 1.0"
    );
    let judged = vec![
        Judgement::Within,
        Judgement::Within,
        Judgement::OutOfRange { shown: "2".to_string() },
    ];
    let e = accept_judged(walk(content), &judged).unwrap_err();
    assert_eq!(
        e.to_text(),
        "Task 'U': verify_threshold 2 is out of range (expected 0.0-1.0)"
    );
    let judged = vec![Judgement::Within, Judgement::Within, Judgement::Within];
    let e = accept_judged(walk(content), &judged).unwrap_err();
    assert!(matches!(e, ScrollError::MissingHeading));
}

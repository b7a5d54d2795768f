use subagents::builtin_subagent_templates;
use subagents::clip_transcript_line;
use subagents::extract_fenced_blocks;
use subagents::format_exec_label;
use subagents::merge_subagent_templates;
use subagents::title_from_task;
use subagents::EngineEvent;
use subagents::EngineEventMsg;
use subagents::PlanUpdate;
use subagents::SkillRef;
use subagents::SubAgentState;
use subagents::SubAgentStatus;
use subagents::SubAgentTemplate;
use subagents::SubAgentsManager;
use subagents::TurnItem;
use subagents::append_transcript_tail;
use subagents::build_turn;

#[test]
fn extracts_named_fenced_blocks() {
    let contents = r#"
before
```codex-subagents
[[agent]]
name = "a"
```
middle
```codex-subagents
[[agent]]
name = "b"
```
after
"#;

    let blocks = extract_fenced_blocks(contents, "codex-subagents");
    assert_eq!(blocks.len(), 2);
    assert!(blocks[0].contains("name = \"a\""));
    assert!(blocks[1].contains("name = \"b\""));
}

#[test]
fn ignores_other_fenced_blocks() {
    let contents = r#"
```toml
foo = "bar"
```
```codex-subagents
[[agent]]
name = "ok"
```
"#;
    let blocks = extract_fenced_blocks(contents, "codex-subagents");
    assert_eq!(blocks.len(), 1);
    assert!(blocks[0].contains("name = \"ok\""));
}

#[test]
fn unterminated_blocks_are_dropped() {
    let contents = "```codex-subagents\n[[agent]]\nname = \"a\"\n";
    let blocks = extract_fenced_blocks(contents, "codex-subagents");
    assert_eq!(blocks.len(), 0);
}

#[test]
fn blank_blocks_are_dropped() {
    let contents = "```codex-subagents\n   \n```\n";
    let blocks = extract_fenced_blocks(contents, "codex-subagents");
    assert_eq!(blocks.len(), 0);
}

#[test]
fn builtin_template_set() {
    let builtins = builtin_subagent_templates();
    let names: Vec<&str> = builtins.iter().map(|t| t.name.as_str()).collect();
    assert_eq!(names, vec!["inspect", "implement", "tests", "refactor", "docs"]);
    for t in &builtins {
        assert!(t.skills.is_empty());
        assert!(t.model.is_none());
        assert!(!t.instructions.trim().is_empty());
    }
}

#[test]
fn merge_overrides_by_name_and_falls_back_to_builtins() {
    let merged = merge_subagent_templates(Vec::new());
    assert_eq!(merged.len(), 5);
    assert_eq!(merged[0].name, "inspect");

    let first = SubAgentTemplate {
        name: "a".to_string(),
        instructions: "first".to_string(),
        skills: Vec::new(),
        model: None,
    };
    let second = SubAgentTemplate {
        name: "a".to_string(),
        instructions: "second".to_string(),
        skills: Vec::new(),
        model: Some("m".to_string()),
    };
    let other = SubAgentTemplate {
        name: "b".to_string(),
        instructions: "other".to_string(),
        skills: Vec::new(),
        model: None,
    };
    let merged = merge_subagent_templates(vec![vec![first, other], vec![second]]);
    assert_eq!(merged.len(), 2);
    assert_eq!(merged[0].name, "a");
    assert_eq!(merged[0].instructions, "second");
    assert_eq!(merged[0].model.as_deref(), Some("m"));
    assert_eq!(merged[1].name, "b");
}

#[test]
fn title_is_first_non_blank_line_trimmed() {
    assert_eq!(title_from_task("Fix bug\nstack trace follows").as_deref(), Some("Fix bug"));
    assert_eq!(title_from_task("\n   \n  second line  \n").as_deref(), Some("second line"));
    assert_eq!(title_from_task("   \n\t\n"), None);
    assert_eq!(title_from_task(""), None);
}

#[test]
fn exec_label_unwraps_login_shell_and_joins_arguments() {
    let bash = vec!["bash".to_string(), "-lc".to_string(), "echo hi".to_string()];
    assert_eq!(format_exec_label(&bash), "echo hi");
    let ls = vec!["ls".to_string(), "-la".to_string()];
    assert_eq!(format_exec_label(&ls), "ls -la");
    let empty: Vec<String> = Vec::new();
    assert_eq!(format_exec_label(&empty), "");
}

#[test]
fn clip_keeps_300_bytes_and_marks_longer_lines() {
    let exact = "a".repeat(300);
    assert_eq!(clip_transcript_line(&exact), exact);

    let over = "a".repeat(301);
    let clipped = clip_transcript_line(&over);
    assert_eq!(clipped.len(), 303);
    assert!(clipped.starts_with(&"a".repeat(300)));
    assert!(clipped.ends_with("\u{2026}"));
}

#[test]
fn clip_never_splits_a_character() {
    // 299 ASCII bytes followed by a two-byte character: byte 300 falls
    // inside the character's encoding, so the cut moves back to 299.
    let mut line = "a".repeat(299);
    line.push('\u{e9}');
    let clipped = clip_transcript_line(&line);
    assert_eq!(clipped.len(), 299 + 3);
    assert!(clipped.starts_with(&"a".repeat(299)));
    assert!(clipped.ends_with("\u{2026}"));
}

#[test]
fn transcript_holds_last_30_lines_and_truncation_sticks() {
    let mut state = SubAgentState::new("t".to_string(), "t".to_string());
    for i in 0..35 {
        append_transcript_tail(&mut state, &format!("line {i}"));
    }
    assert_eq!(state.transcript_tail.len(), 30);
    assert!(state.transcript_truncated);
    assert_eq!(state.transcript_tail[0], "line 5");
    assert_eq!(state.transcript_tail[29], "line 34");
    // A later append keeps the flag set.
    append_transcript_tail(&mut state, "one more");
    assert!(state.transcript_truncated);
    assert_eq!(state.transcript_tail.len(), 30);
}

#[test]
fn transcript_drops_blank_lines_and_trims_line_ends() {
    let mut state = SubAgentState::new("t".to_string(), "t".to_string());
    append_transcript_tail(&mut state, "first  \n\n   \nsecond\r\n");
    assert_eq!(state.transcript_tail, vec!["first", "second"]);
    assert!(!state.transcript_truncated);
}

fn spawn_one(manager: &mut SubAgentsManager, task: &str) -> u64 {
    let templates = builtin_subagent_templates();
    manager
        .spawn(&templates, "implement", task)
        .ok()
        .expect("known template spawns")
        .id
}

#[test]
fn spawn_creates_running_entry_and_reports_running_count() {
    let mut manager = SubAgentsManager::new();
    manager.set_event_sender();
    let templates = builtin_subagent_templates();
    let ok = manager
        .spawn(&templates, "implement", "Fix bug\nstack trace follows")
        .ok()
        .expect("known template spawns");
    assert!(!ok.enable_skills);

    let listed = manager.list();
    assert_eq!(listed.len(), 1);
    assert_eq!(listed[0].id, ok.id);
    assert_eq!(listed[0].template, "implement");
    assert_eq!(listed[0].title, "Fix bug");
    assert_eq!(listed[0].status, SubAgentStatus::Running);
    assert_eq!(listed[0].tool_uses, 0);

    let update = ok.update.expect("first snapshot is pushed");
    assert_eq!(update.created_count, 1);
    assert_eq!(update.running_count, 1);
    assert_eq!(update.agents.len(), 1);
    assert_eq!(update.agents[0].title, "Fix bug");
}

#[test]
fn spawn_with_unknown_template_changes_nothing() {
    let mut manager = SubAgentsManager::new();
    manager.set_event_sender();
    let templates = builtin_subagent_templates();
    let before = manager.list().len();
    let r = manager.spawn(&templates, "no-such-template", "task");
    assert!(r.is_err());
    assert_eq!(manager.list().len(), before);
}

#[test]
fn spawn_title_falls_back_to_template_name() {
    let mut manager = SubAgentsManager::new();
    let id = spawn_one(&mut manager, "  \n\n");
    let p = manager.poll(id, false).expect("entry exists");
    assert_eq!(p.title, "implement");
}

#[test]
fn poll_and_cancel_of_unspawned_ids() {
    let mut manager = SubAgentsManager::new();
    assert!(manager.poll(7, true).is_none());
    assert!(!manager.cancel(7).existed);
    let id = spawn_one(&mut manager, "task");
    assert!(manager.poll(id + 1, true).is_none());
    assert!(!manager.cancel(id + 1).existed);
}

#[test]
fn cancel_twice_reports_true_and_stays_canceled() {
    let mut manager = SubAgentsManager::new();
    let id = spawn_one(&mut manager, "task");
    let first = manager.cancel(id);
    assert!(first.existed);
    assert_eq!(manager.poll(id, false).unwrap().status, SubAgentStatus::Canceled);
    let second = manager.cancel(id);
    assert!(second.existed);
    assert_eq!(manager.poll(id, false).unwrap().status, SubAgentStatus::Canceled);
}

#[test]
fn cancel_forwards_interrupt_only_after_submission_attached() {
    let mut manager = SubAgentsManager::new();
    let id = spawn_one(&mut manager, "task");
    let early = manager.cancel(id);
    assert!(!early.forward_interrupt);

    let id2 = spawn_one(&mut manager, "task");
    manager.attach_submission(id2);
    let later = manager.cancel(id2);
    assert!(later.forward_interrupt);
}

#[test]
fn terminal_status_never_changes_again() {
    let mut manager = SubAgentsManager::new();
    let id = spawn_one(&mut manager, "task");
    manager.complete(id, Some("done".to_string()));
    assert_eq!(manager.poll(id, false).unwrap().status, SubAgentStatus::Completed);

    // No later operation moves the entry out of its terminal status.
    let c = manager.cancel(id);
    assert!(c.existed);
    assert_eq!(manager.poll(id, false).unwrap().status, SubAgentStatus::Completed);
    manager.fail(id, vec!["late".to_string()]);
    assert_eq!(manager.poll(id, false).unwrap().status, SubAgentStatus::Completed);
    manager.complete(id, Some("again".to_string()));
    let p = manager.poll(id, false).unwrap();
    assert_eq!(p.status, SubAgentStatus::Completed);
    assert_eq!(p.result.as_deref(), Some("done"));
}

#[test]
fn poll_drains_messages_only_on_request_and_plans_always() {
    let mut manager = SubAgentsManager::new();
    let id = spawn_one(&mut manager, "task");
    manager.append_message(id, "hello".to_string());
    manager.append_plan_suggestion(
        id,
        PlanUpdate { explanation: Some("plan".to_string()), steps: Vec::new() },
    );

    let p = manager.poll(id, false).unwrap();
    assert!(p.drained_messages.is_empty());
    assert_eq!(p.drained_plan_suggestions.len(), 1);

    // The message queue stayed full across the non-draining poll; the
    // plan queue emptied on it.
    let p = manager.poll(id, false).unwrap();
    assert!(p.drained_messages.is_empty());
    assert!(p.drained_plan_suggestions.is_empty());

    let p = manager.poll(id, true).unwrap();
    assert_eq!(p.drained_messages, vec!["hello".to_string()]);

    let p = manager.poll(id, true).unwrap();
    assert!(p.drained_messages.is_empty());
}

#[test]
fn identical_projections_yield_one_event() {
    let mut manager = SubAgentsManager::new();
    manager.set_event_sender();
    let id = spawn_one(&mut manager, "task");

    let first = manager.set_total_tokens(id, Some(42));
    assert!(first.is_some());
    // The same mutation again produces an identical projection: no
    // second event.
    let second = manager.set_total_tokens(id, Some(42));
    assert!(second.is_none());
    // A different value changes the projection again.
    let third = manager.set_total_tokens(id, Some(43));
    assert!(third.is_some());
}

#[test]
fn no_events_are_pushed_before_a_sender_is_attached() {
    let mut manager = SubAgentsManager::new();
    let templates = builtin_subagent_templates();
    let ok = manager.spawn(&templates, "implement", "task").ok().unwrap();
    assert!(ok.update.is_none());
    manager.set_event_sender();
    assert!(manager.emit_update_if_changed().is_some());
}

#[test]
fn build_turn_reports_unknown_skills_as_warnings() {
    let template = SubAgentTemplate {
        name: "t".to_string(),
        instructions: "do the thing".to_string(),
        skills: vec!["nonexistent".to_string()],
        model: None,
    };
    let available: Vec<SkillRef> = Vec::new();
    let plan = build_turn(&template, "task", &available, "default-model");
    assert_eq!(plan.warnings, vec!["unknown skill preset: nonexistent".to_string()]);
    assert_eq!(plan.model, "default-model");
    // The sub-agent still starts normally: instructions and the task
    // are both submitted.
    assert_eq!(plan.items.len(), 2);
    match &plan.items[0] {
        TurnItem::Text { text } => assert_eq!(text, "do the thing"),
        _ => panic!("instructions come first"),
    }
    match &plan.items[1] {
        TurnItem::Text { text } => assert_eq!(text, "task\n"),
        _ => panic!("task text comes last"),
    }
}

#[test]
fn build_turn_resolves_known_skills_in_order() {
    let template = SubAgentTemplate {
        name: "t".to_string(),
        instructions: "   ".to_string(),
        skills: vec!["review".to_string(), "missing".to_string()],
        model: Some("override".to_string()),
    };
    let available = vec![
        SkillRef { name: "review".to_string(), path: "/skills/review".to_string() },
        SkillRef { name: "other".to_string(), path: "/skills/other".to_string() },
    ];
    let plan = build_turn(&template, "task", &available, "default-model");
    assert_eq!(plan.model, "override");
    assert_eq!(plan.warnings, vec!["unknown skill preset: missing".to_string()]);
    // Blank instructions are omitted: skill, then task.
    assert_eq!(plan.items.len(), 2);
    match &plan.items[0] {
        TurnItem::Skill { name, path } => {
            assert_eq!(name, "review");
            assert_eq!(path, "/skills/review");
        },
        _ => panic!("resolved skill comes before the task"),
    }
}

fn event(id: &str, msg: EngineEventMsg) -> EngineEvent {
    EngineEvent { id: id.to_string(), msg }
}

#[test]
fn handle_event_appends_messages_and_counts_tools() {
    let mut manager = SubAgentsManager::new();
    let id = spawn_one(&mut manager, "task");

    let r = manager.handle_event(
        id,
        "sub-1",
        false,
        event("other", EngineEventMsg::AgentMessage { message: "progress".to_string() }),
    );
    assert!(!r.done);

    let r = manager.handle_event(
        id,
        "sub-1",
        false,
        event(
            "other",
            EngineEventMsg::ExecCommandBegin {
                command: vec!["bash".to_string(), "-lc".to_string(), "echo hi".to_string()],
            },
        ),
    );
    assert!(!r.done);

    manager.handle_event(id, "sub-1", false, event("other", EngineEventMsg::TokenCount {
        total: Some(17),
    }));

    let p = manager.poll(id, true).unwrap();
    assert_eq!(p.status, SubAgentStatus::Running);
    assert_eq!(p.drained_messages, vec!["progress".to_string()]);
    assert_eq!(p.tool_uses, 1);
    assert_eq!(p.total_tokens, Some(17));
    let activity = p.last_activity.expect("activity recorded");
    assert_eq!(activity.label, "echo hi");
}

#[test]
fn handle_event_completes_only_on_matching_correlation_id() {
    let mut manager = SubAgentsManager::new();
    let id = spawn_one(&mut manager, "task");

    let r = manager.handle_event(
        id,
        "sub-1",
        false,
        event("unrelated", EngineEventMsg::TaskComplete {
            last_agent_message: Some("not ours".to_string()),
        }),
    );
    assert!(!r.done);
    assert_eq!(manager.poll(id, false).unwrap().status, SubAgentStatus::Running);

    let r = manager.handle_event(
        id,
        "sub-1",
        false,
        event("sub-1", EngineEventMsg::TaskComplete {
            last_agent_message: Some("all done".to_string()),
        }),
    );
    assert!(r.done);
    let p = manager.poll(id, false).unwrap();
    assert_eq!(p.status, SubAgentStatus::Completed);
    assert_eq!(p.result.as_deref(), Some("all done"));
}

#[test]
fn handle_event_records_matching_errors_as_failure() {
    let mut manager = SubAgentsManager::new();
    let id = spawn_one(&mut manager, "task");
    let r = manager.handle_event(
        id,
        "sub-1",
        false,
        event("sub-1", EngineEventMsg::ErrorEvent { message: "engine broke".to_string() }),
    );
    assert!(r.done);
    let p = manager.poll(id, false).unwrap();
    assert_eq!(p.status, SubAgentStatus::Failed);
    assert_eq!(p.warnings, vec!["engine broke".to_string()]);
}

#[test]
fn cancellation_discards_a_racing_terminal_event() {
    let mut manager = SubAgentsManager::new();
    let id = spawn_one(&mut manager, "task");
    assert!(manager.cancel(id).existed);
    assert_eq!(manager.poll(id, false).unwrap().status, SubAgentStatus::Canceled);

    // The completion arrived concurrently with the cancellation: its
    // content is discarded and the status stays `Canceled`.
    let r = manager.handle_event(
        id,
        "sub-1",
        true,
        event("sub-1", EngineEventMsg::TaskComplete {
            last_agent_message: Some("too late".to_string()),
        }),
    );
    assert!(r.done);
    let p = manager.poll(id, false).unwrap();
    assert_eq!(p.status, SubAgentStatus::Canceled);
    assert!(p.result.is_none());

    // Even dispatched normally, a terminal event cannot override the
    // canceled status.
    manager.handle_event(
        id,
        "sub-1",
        false,
        event("sub-1", EngineEventMsg::ErrorEvent { message: "late error".to_string() }),
    );
    assert_eq!(manager.poll(id, false).unwrap().status, SubAgentStatus::Canceled);
}

#[test]
fn runner_failures_keep_diagnostics() {
    let mut manager = SubAgentsManager::new();
    let id = spawn_one(&mut manager, "task");
    manager.runner_start_failed(id, "no engine".to_string());
    let p = manager.poll(id, false).unwrap();
    assert_eq!(p.status, SubAgentStatus::Failed);
    assert_eq!(p.warnings, vec!["failed to spawn sub-agent: no engine".to_string()]);
}

#[test]
fn cancel_before_start_keeps_canceled_status_with_warning() {
    let mut manager = SubAgentsManager::new();
    let id = spawn_one(&mut manager, "task");
    assert!(manager.cancel(id).existed);
    manager.runner_canceled_before_start(id);
    let p = manager.poll(id, false).unwrap();
    assert_eq!(p.status, SubAgentStatus::Canceled);
    assert_eq!(p.warnings, vec!["sub-agent was canceled before start".to_string()]);
}

#[test]
fn snapshots_carry_transcripts() {
    let mut manager = SubAgentsManager::new();
    manager.set_event_sender();
    let id = spawn_one(&mut manager, "task");
    let up = manager
        .append_message(id, "hello world".to_string())
        .expect("a changed projection is pushed");
    assert_eq!(up.created_count, 1);
    assert_eq!(up.running_count, 1);
    assert_eq!(up.agents[0].transcript, vec!["hello world".to_string()]);
    assert!(!up.agents[0].transcript_truncated);
}

#[test]
fn list_preserves_insertion_order() {
    let mut manager = SubAgentsManager::new();
    let a = spawn_one(&mut manager, "first");
    let b = spawn_one(&mut manager, "second");
    let c = spawn_one(&mut manager, "third");
    let listed = manager.list();
    assert_eq!(listed.iter().map(|s| s.id).collect::<Vec<_>>(), vec![a, b, c]);
    assert_eq!(listed[0].title, "first");
    assert_eq!(listed[2].title, "third");
}

//! Scheduling, run bookkeeping, exit arbitration, and path safety.

use chatgroup::chat::{validate_message_creation, ChatServiceError};
use chatgroup::model::{
    ChatAgent, ChatMessage, ChatSenderType, ChatSessionAgent, ChatSessionAgentState,
    ChatSessionStatus, MentionStatus, MessageMeta,
};
use chatgroup::paths::{
    attachment_kind, is_allowed_attachment, is_safe_relative_path, normalize_workspace_path,
    sanitize_filename, untracked_path_allowed, WorkspacePathError,
};
use chatgroup::runner::{
    build_workspace_path, compute_delta, estimate_token_usage, extract_latest_assistant,
    flush_token_usage_buffer, mention_failure_text, parse_token_usage_from_stdout_line,
    porcelain_has_tracked_changes, resolve_reply_handle, run_records_prefix,
    update_token_usage_from_stdout_chunk, uuid_hyphenated, ExitTracker,
};
use chatgroup::events::{run_finish_events, run_start_events, ChatStreamEvent};
use chatgroup::scheduler::{
    advance_mention_status, begin_run, decide_mention, enqueue_pending, finish_run, force_dead,
    mentions_to_dispatch, pop_next_pending, resolve_session_agent_for_mention, MentionDecision,
    PendingMessage,
};

fn agent(id: u128, name: &str) -> ChatAgent {
    ChatAgent {
        id,
        name: name.to_string(),
        runner_type: "CLAUDE_CODE".to_string(),
        system_prompt: "You review code.".to_string(),
        tools_enabled: Vec::new(),
        created_at: "2024-05-01T10:00:00+00:00".to_string(),
        updated_at: "2024-05-01T10:00:00+00:00".to_string(),
    }
}

fn session_agent(id: u128, agent_id: u128, state: ChatSessionAgentState) -> ChatSessionAgent {
    ChatSessionAgent {
        id,
        session_id: 7,
        agent_id,
        state,
        workspace_path: None,
        pty_session_key: None,
        agent_session_id: Some("sess".to_string()),
        agent_message_id: Some("msg".to_string()),
        created_at: "2024-05-01T10:00:00+00:00".to_string(),
        updated_at: "2024-05-01T10:00:00+00:00".to_string(),
    }
}

fn message(id: u128, sender_type: ChatSenderType, sender_id: Option<u128>, content: &str, depth: u32) -> ChatMessage {
    let mut meta = MessageMeta::new();
    meta.chain_depth = depth;
    ChatMessage {
        id,
        session_id: 7,
        sender_type,
        sender_id,
        content: content.to_string(),
        mentions: chatgroup::chat::message_mentions(sender_type, content),
        meta,
        created_at: "2024-05-01T10:00:00+00:00".to_string(),
    }
}

#[test]
fn exact_name_match_wins_over_case_insensitive() {
    let agents = vec![agent(1, "Coder"), agent(2, "coder")];
    let sas = vec![
        session_agent(11, 1, ChatSessionAgentState::Idle),
        session_agent(12, 2, ChatSessionAgentState::Idle),
    ];
    let resolved = resolve_session_agent_for_mention(&sas, &agents, &"coder".to_string());
    let (sa, ag) = resolved.expect("exact match must win");
    assert_eq!(sa.id, 12);
    assert_eq!(ag.name, "coder");
}

#[test]
fn ambiguous_case_insensitive_mention_is_skipped() {
    let agents = vec![agent(1, "Coder"), agent(2, "coder")];
    let sas = vec![
        session_agent(11, 1, ChatSessionAgentState::Idle),
        session_agent(12, 2, ChatSessionAgentState::Idle),
    ];
    let resolved = resolve_session_agent_for_mention(&sas, &agents, &"CODER".to_string());
    assert!(resolved.is_none(), "an ambiguous mention starts no run");
}

#[test]
fn unique_case_insensitive_mention_resolves() {
    let agents = vec![agent(1, "Coder")];
    let sas = vec![session_agent(11, 1, ChatSessionAgentState::Idle)];
    let resolved = resolve_session_agent_for_mention(&sas, &agents, &"coder".to_string());
    assert_eq!(resolved.expect("unique member").1.id, 1);
}

#[test]
fn reserved_and_self_mentions_are_ignored_silently() {
    let ag = agent(1, "coder");
    let sa = session_agent(11, 1, ChatSessionAgentState::Idle);
    let from_agent = message(100, ChatSenderType::Agent, Some(1), "[sendMessageTo@@you]", 1);
    let d = decide_mention(7, &"you".to_string(), &from_agent, &sa, &ag);
    assert!(matches!(d, MentionDecision::SkipReserved));

    let self_msg = message(101, ChatSenderType::Agent, Some(1), "[sendMessageTo@@coder]", 1);
    let d2 = decide_mention(7, &"coder".to_string(), &self_msg, &sa, &ag);
    assert!(matches!(d2, MentionDecision::SkipSelf));
}

#[test]
fn busy_member_queues_and_free_member_starts() {
    let ag = agent(1, "coder");
    let user_msg = message(100, ChatSenderType::User, None, "@coder hi", 0);

    let running = session_agent(11, 1, ChatSessionAgentState::Running);
    match decide_mention(7, &"coder".to_string(), &user_msg, &running, &ag) {
        MentionDecision::Queue { pending } => {
            assert_eq!(pending.agent_name, "coder");
            assert_eq!(pending.message.id, 100);
        }
        _ => panic!("a running member queues the message"),
    }

    let idle = session_agent(11, 1, ChatSessionAgentState::Idle);
    assert!(matches!(
        decide_mention(7, &"coder".to_string(), &user_msg, &idle, &ag),
        MentionDecision::Start
    ));
}

#[test]
fn queue_is_first_in_first_out() {
    let ag = agent(1, "coder");
    let mut queue: Vec<PendingMessage> = Vec::new();
    for k in 0..3u32 {
        let m = message(200 + k as u128, ChatSenderType::User, None, "@coder go", 0);
        enqueue_pending(
            &mut queue,
            PendingMessage {
                session_id: 7,
                agent_id: ag.id,
                agent_name: ag.name.clone(),
                message: m,
            },
        );
    }
    let first = pop_next_pending(&mut queue).expect("first");
    let second = pop_next_pending(&mut queue).expect("second");
    let third = pop_next_pending(&mut queue).expect("third");
    assert_eq!(first.message.id, 200);
    assert_eq!(second.message.id, 201);
    assert_eq!(third.message.id, 202);
    assert!(pop_next_pending(&mut queue).is_none());
}

#[test]
fn state_machine_transitions() {
    let idle = session_agent(11, 1, ChatSessionAgentState::Idle);
    let running = begin_run(&idle);
    assert_eq!(running.state, ChatSessionAgentState::Running);
    assert_eq!(running.agent_session_id.as_deref(), Some("sess"));

    let done = finish_run(&running, true);
    assert_eq!(done.state, ChatSessionAgentState::Idle);
    assert_eq!(done.agent_session_id.as_deref(), Some("sess"));

    let failed = finish_run(&running, false);
    assert_eq!(failed.state, ChatSessionAgentState::Dead);
    assert!(failed.agent_session_id.is_none());
    assert!(failed.agent_message_id.is_none());

    let revived = begin_run(&failed);
    assert_eq!(revived.state, ChatSessionAgentState::Running);
    assert!(revived.agent_session_id.is_none(), "a dead member restarts fresh");

    let stopped = force_dead(&running);
    assert_eq!(stopped.state, ChatSessionAgentState::Dead);
    assert!(stopped.agent_session_id.is_none());
}

#[test]
fn chain_depth_guard_stops_dispatch() {
    let shallow = message(1, ChatSenderType::User, None, "@a go @b go", 0);
    assert_eq!(mentions_to_dispatch(&shallow), vec!["a", "b"]);

    let deep = message(2, ChatSenderType::User, None, "@a go", 5);
    assert!(mentions_to_dispatch(&deep).is_empty());

    let agent_msg = message(3, ChatSenderType::Agent, Some(9), "[sendMessageTo@@you] [sendMessageTo@@b]", 1);
    assert_eq!(mentions_to_dispatch(&agent_msg), vec!["b"]);

    assert_eq!(chatgroup::runner::agent_reply_chain_depth(0), 1);
    assert_eq!(chatgroup::runner::agent_reply_chain_depth(4), 5);
}

#[test]
fn mention_status_only_climbs_the_lattice() {
    let mut statuses: Vec<(String, MentionStatus)> = Vec::new();
    let name = "coder".to_string();
    advance_mention_status(&mut statuses, &name, MentionStatus::Received);
    assert_eq!(statuses[0].1, MentionStatus::Received);
    advance_mention_status(&mut statuses, &name, MentionStatus::Running);
    assert_eq!(statuses[0].1, MentionStatus::Running);
    advance_mention_status(&mut statuses, &name, MentionStatus::Completed);
    assert_eq!(statuses[0].1, MentionStatus::Completed);
    // a late Received or Running report never downgrades the record
    advance_mention_status(&mut statuses, &name, MentionStatus::Received);
    assert_eq!(statuses[0].1, MentionStatus::Completed);
    advance_mention_status(&mut statuses, &name, MentionStatus::Running);
    assert_eq!(statuses[0].1, MentionStatus::Completed);
}

#[test]
fn run_events_come_in_protocol_order() {
    let name = "coder".to_string();
    let started = "2024-05-01T10:00:00+00:00".to_string();
    let start = run_start_events(7, 100, 11, 1, &name, &started);
    assert_eq!(start.len(), 2);
    assert!(matches!(
        &start[0],
        ChatStreamEvent::AgentState { state: ChatSessionAgentState::Running, .. }
    ));
    assert!(matches!(
        &start[1],
        ChatStreamEvent::MentionAcknowledged { status: MentionStatus::Running, .. }
    ));

    let reply = "hi".to_string();
    let finish = run_finish_events(7, 100, 11, 1, 55, &name, &reply, true);
    assert_eq!(finish.len(), 3);
    assert!(matches!(
        &finish[0],
        ChatStreamEvent::AgentDelta { is_final: true, delta: false, .. }
    ));
    assert!(matches!(
        &finish[1],
        ChatStreamEvent::AgentState { state: ChatSessionAgentState::Idle, .. }
    ));
    assert!(matches!(
        &finish[2],
        ChatStreamEvent::MentionAcknowledged { status: MentionStatus::Completed, .. }
    ));

    let failed = run_finish_events(7, 100, 11, 1, 55, &name, &reply, false);
    assert!(matches!(
        &failed[1],
        ChatStreamEvent::AgentState { state: ChatSessionAgentState::Dead, .. }
    ));
    assert!(matches!(
        &failed[2],
        ChatStreamEvent::MentionAcknowledged { status: MentionStatus::Failed, .. }
    ));
}

#[test]
fn cancellation_silences_late_exit_signal() {
    let t = ExitTracker::new();
    let t = t.on_cancel();
    let (t, announced) = t.on_exit_signal();
    assert!(!announced, "a signal after manual stop stays silent");
    assert!(!t.finished_sent);

    let fresh = ExitTracker::new();
    let (after_child, announced_child) = fresh.on_child_exit();
    assert!(announced_child);
    let (_, announced_again) = after_child.on_exit_signal();
    assert!(!announced_again, "only one Finished is announced");
}

#[test]
fn delta_protocol_appends_or_replaces() {
    let (delta, is_delta) = compute_delta(&"hel".to_string(), &"hello".to_string());
    assert!(is_delta);
    assert_eq!(delta, "lo");

    let (full, is_delta2) = compute_delta(&"hello".to_string(), &"goodbye".to_string());
    assert!(!is_delta2);
    assert_eq!(full, "goodbye");
}

#[test]
fn parse_token_usage_from_codex_token_count_line() {
    let line = r#"{"method":"codex/event/token_count","params":{"msg":{"info":{"last_token_usage":{"total_tokens":53002},"model_context_window":258400}}}}"#;
    let usage = parse_token_usage_from_stdout_line(line).expect("usage");
    assert_eq!(usage.total_tokens, 53002);
    assert_eq!(usage.model_context_window, 258400);
}

#[test]
fn parse_token_usage_from_plain_token_usage_line() {
    let line = r#"{"type":"token_usage","total_tokens":14596,"model_context_window":258400}"#;
    let usage = parse_token_usage_from_stdout_line(line).expect("usage");
    assert_eq!(usage.total_tokens, 14596);
    assert_eq!(usage.model_context_window, 258400);
}

#[test]
fn stdout_chunks_are_buffered_line_by_line() {
    let mut buffer = String::new();
    let mut usage = None;
    update_token_usage_from_stdout_chunk(
        &mut buffer,
        &mut usage,
        "noise\n{\"type\":\"token_usage\",\"total_tokens\":7,\"model_",
    );
    assert_eq!(buffer, "{\"type\":\"token_usage\",\"total_tokens\":7,\"model_");
    assert!(usage.is_none());
    update_token_usage_from_stdout_chunk(&mut buffer, &mut usage, "context_window\":9}\n");
    assert_eq!(buffer, "");
    let u = usage.expect("the completed line reports usage");
    assert_eq!(u.total_tokens, 7);
    assert_eq!(u.model_context_window, 9);

    let mut tail = String::new();
    let mut usage2 = None;
    update_token_usage_from_stdout_chunk(
        &mut tail,
        &mut usage2,
        "{\"type\":\"token_usage\",\"total_tokens\":3,\"model_context_window\":4}",
    );
    assert!(usage2.is_none(), "an unterminated line stays buffered");
    flush_token_usage_buffer(&mut tail, &mut usage2);
    assert_eq!(tail, "");
    assert_eq!(usage2.expect("flush reads the final line").total_tokens, 3);
}

#[test]
fn padded_usage_lines_still_parse() {
    let line = " {\"type\":\"token_usage\",\"total_tokens\":5,\"model_context_window\":6} ";
    let usage = parse_token_usage_from_stdout_line(line).expect("padded line parses");
    assert_eq!(usage.total_tokens, 5);
    assert_eq!(usage.model_context_window, 6);
    assert!(parse_token_usage_from_stdout_line("{\"type\":\"other\"}").is_none());
    assert!(parse_token_usage_from_stdout_line("not json").is_none());
}

#[test]
fn estimated_usage_is_marked_estimated() {
    let usage = estimate_token_usage("a prompt", "an answer");
    assert!(usage.is_estimated);
    assert_eq!(
        usage.total_tokens,
        usage.input_tokens.unwrap() + usage.output_tokens.unwrap()
    );
}

#[test]
fn identifiers_and_run_directories_render_exactly() {
    assert_eq!(
        uuid_hyphenated(0),
        "00000000-0000-0000-0000-000000000000"
    );
    assert_eq!(
        uuid_hyphenated(0x0123456789abcdef0123456789abcdefu128),
        "01234567-89ab-cdef-0123-456789abcdef"
    );
    assert_eq!(
        run_records_prefix(0, 7),
        "session_agent_00000000-0000-0000-0000-000000000000_run_0007"
    );
    assert_eq!(
        run_records_prefix(0, 12345),
        "session_agent_00000000-0000-0000-0000-000000000000_run_12345"
    );
    assert_eq!(
        build_workspace_path("/srv/assets", 0, 0),
        "/srv/assets/chat/session_00000000-0000-0000-0000-000000000000/agents/00000000-0000-0000-0000-000000000000"
    );
}

#[test]
fn run_environment_names_every_handle() {
    let env = chatgroup::runner::run_environment(
        7,
        1,
        11,
        55,
        &"/ws/ctx/messages.jsonl".to_string(),
        &"/ws/run/context.jsonl".to_string(),
    );
    assert_eq!(env.len(), 6);
    assert_eq!(env[0].0, "VK_CHAT_SESSION_ID");
    assert_eq!(env[0].1, "00000000-0000-0000-0000-000000000007");
    assert_eq!(env[3].0, "VK_CHAT_RUN_ID");
    assert_eq!(env[4].1, "/ws/ctx/messages.jsonl");
    assert_eq!(env[5].0, "VK_CHAT_CONTEXT_RUN_PATH");
}

#[test]
fn git_capture_triggers_only_on_tracked_changes() {
    assert!(porcelain_has_tracked_changes(" M src/lib.rs\n?? notes.txt\n"));
    assert!(!porcelain_has_tracked_changes("?? notes.txt\n?? more.txt\n"));
    assert!(!porcelain_has_tracked_changes("\n  \n"));
    assert!(!porcelain_has_tracked_changes(""));
    assert!(chatgroup::paths::diff_truncated(4001));
    assert!(!chatgroup::paths::diff_truncated(4000));
}

#[test]
fn latest_assistant_entry_wins_by_stream_index() {
    let entries = vec![
        (0usize, "early".to_string()),
        (4usize, "  final answer  ".to_string()),
        (2usize, "middle".to_string()),
    ];
    assert_eq!(extract_latest_assistant(&entries).as_deref(), Some("final answer"));
    let empty_tail = vec![(0usize, "early".to_string()), (9usize, "   ".to_string())];
    assert_eq!(extract_latest_assistant(&empty_tail), None);
    assert_eq!(extract_latest_assistant(&Vec::new()), None);
}

#[test]
fn reply_handles_are_sanitized() {
    let mut m = message(1, ChatSenderType::User, None, "hi", 0);
    m.meta.sender_handle = Some("ali ce!".to_string());
    assert_eq!(resolve_reply_handle(&m), "alice");
    m.meta.sender_handle = Some("!!!".to_string());
    assert_eq!(resolve_reply_handle(&m), "you");
    m.meta.sender_handle = None;
    assert_eq!(resolve_reply_handle(&m), "you");
}

#[test]
fn failure_reports_are_compacted_to_one_line() {
    let text = mention_failure_text("coder", "  first line \n\n  second line \n");
    assert_eq!(
        text,
        "Agent \"coder\" failed to execute this mention: first line second line"
    );
    let empty = mention_failure_text("coder", " \n ");
    assert_eq!(empty, "Agent \"coder\" failed to execute this mention: Unknown error");
}

#[test]
fn creation_is_rejected_for_empty_content_without_attachments() {
    let r = validate_message_creation(
        ChatSenderType::User,
        None,
        "   \n ",
        false,
        Some(ChatSessionStatus::Active),
    );
    assert!(matches!(
        r,
        Err(ChatServiceError::Validation { message }) if message == "content cannot be empty"
    ));

    let with_attachment = validate_message_creation(
        ChatSenderType::User,
        None,
        "   ",
        true,
        Some(ChatSessionStatus::Active),
    );
    assert!(with_attachment.is_ok());

    let archived = validate_message_creation(
        ChatSenderType::User,
        None,
        "hello",
        false,
        Some(ChatSessionStatus::Archived),
    );
    assert!(matches!(archived, Err(ChatServiceError::SessionArchived)));

    let missing = validate_message_creation(ChatSenderType::User, None, "hello", false, None);
    assert!(matches!(missing, Err(ChatServiceError::SessionNotFound)));

    let agent_without_id = validate_message_creation(
        ChatSenderType::Agent,
        None,
        "hello",
        false,
        Some(ChatSessionStatus::Active),
    );
    assert!(matches!(agent_without_id, Err(ChatServiceError::Validation { .. })));
}

#[test]
fn unsafe_paths_are_rejected() {
    assert!(is_safe_relative_path("src/main.rs"));
    assert!(is_safe_relative_path("a/b/c.txt"));
    assert!(!is_safe_relative_path("/etc/passwd"));
    assert!(!is_safe_relative_path("../secrets"));
    assert!(!is_safe_relative_path("a/../b"));
    assert!(!is_safe_relative_path("a\\..\\b"));
    assert!(is_safe_relative_path("a..b/c"));

    assert!(untracked_path_allowed("notes/todo.md"));
    assert!(!untracked_path_allowed(".agents_chatgroup/context/x"));
    assert!(!untracked_path_allowed(".agents-chatgroup"));
    assert!(!untracked_path_allowed("../escape"));

    let good = normalize_workspace_path(Some(&"  /srv/ws  ".to_string()));
    assert_eq!(good.unwrap().as_deref(), Some("/srv/ws"));
    let bad = normalize_workspace_path(Some(&"a/../b".to_string()));
    assert_eq!(bad.unwrap_err(), WorkspacePathError::ParentComponent);
    let empty = normalize_workspace_path(Some(&"   ".to_string()));
    assert_eq!(empty.unwrap_err(), WorkspacePathError::Empty);
    assert_eq!(normalize_workspace_path(None).unwrap(), None);
}

#[test]
fn attachments_are_classified_and_filtered() {
    assert_eq!(sanitize_filename("report (final).pdf"), "reportfinal.pdf");
    assert_eq!(sanitize_filename("???"), "file");
    assert_eq!(attachment_kind(Some("image/png")), "image");
    assert_eq!(attachment_kind(Some("text/plain")), "file");
    assert_eq!(attachment_kind(None), "file");
    assert!(is_allowed_attachment("notes.TXT", None));
    assert!(is_allowed_attachment("binary.bin", Some("text/plain")));
    assert!(is_allowed_attachment("photo.JPG", None));
    assert!(!is_allowed_attachment("binary.bin", Some("application/octet-stream")));
}

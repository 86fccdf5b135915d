//! Context files, prompts, presets, and executor stream extraction.

use chatgroup::context::{
    build_simplified_messages, context_line_to_text, parse_context_line, to_simplified_message,
    ContextLine, SimplifiedMessage,
};
use chatgroup::json::{parse_json, JsonValue};
use chatgroup::kimi::KimiCode;
use chatgroup::model::{ChatAgent, ChatMessage, ChatSenderType, MessageMeta};
use chatgroup::model_sync::{
    auto_variant_key, canonical_variant_key, extract_executor_profile_variant, parse_runner_type,
    supports_model, upsert_model_variants, with_model, BaseCodingAgent, CodingAgentConfig,
    ExecutorConfig,
};
use chatgroup::presets::{
    default_chat_compression, default_chat_presets, format_bullets, format_steps,
};
use chatgroup::prompt::{build_prompt, build_session_agent_summaries, SessionAgentSummary};

fn agent(id: u128, name: &str, prompt: &str) -> ChatAgent {
    ChatAgent {
        id,
        name: name.to_string(),
        runner_type: "CLAUDE_CODE".to_string(),
        system_prompt: prompt.to_string(),
        tools_enabled: Vec::new(),
        created_at: "2024-05-01T10:00:00+00:00".to_string(),
        updated_at: "2024-05-01T10:00:00+00:00".to_string(),
    }
}

fn user_message(content: &str) -> ChatMessage {
    let mut meta = MessageMeta::new();
    meta.sender_handle = Some("alice".to_string());
    ChatMessage {
        id: 5,
        session_id: 7,
        sender_type: ChatSenderType::User,
        sender_id: None,
        content: content.to_string(),
        mentions: Vec::new(),
        meta,
        created_at: "2024-05-01T10:00:00+00:00".to_string(),
    }
}

#[test]
fn context_line_round_trips_byte_for_byte() {
    let line = ContextLine {
        sender: "user:alice".to_string(),
        content: "hi \"there\"\nback\\slash\ttab".to_string(),
        time: "2024-05-01 10:00:00".to_string(),
    };
    let text = context_line_to_text(&line);
    let parsed = parse_context_line(&text).expect("written lines parse back");
    assert_eq!(parsed.sender, line.sender);
    assert_eq!(parsed.content, line.content);
    assert_eq!(parsed.time, line.time);

    let rendered: String = text.iter().collect();
    assert_eq!(
        rendered,
        "{\"sender\":\"user:alice\",\"content\":\"hi \\\"there\\\"\\nback\\\\slash\\ttab\",\"time\":\"2024-05-01 10:00:00\"}"
    );
}

#[test]
fn context_file_round_trips_line_by_line() {
    let lines = vec![
        ContextLine {
            sender: "user:alice".to_string(),
            content: "first\nwith newline".to_string(),
            time: "2024-05-01 10:00:00".to_string(),
        },
        ContextLine {
            sender: "agent:bot".to_string(),
            content: "second \"quoted\"".to_string(),
            time: "2024-05-01 10:00:01".to_string(),
        },
        ContextLine {
            sender: "system".to_string(),
            content: "third".to_string(),
            time: "2024-05-01 10:00:02".to_string(),
        },
    ];
    let rendered = chatgroup::context::render_context_jsonl(&lines);
    let parsed = chatgroup::context::parse_context_jsonl(&rendered).expect("file parses back");
    assert_eq!(parsed.len(), lines.len());
    for (a, b) in parsed.iter().zip(lines.iter()) {
        assert_eq!(a.sender, b.sender);
        assert_eq!(a.content, b.content);
        assert_eq!(a.time, b.time);
    }
    // a file missing its final line feed is rejected
    let mut truncated = rendered.clone();
    truncated.pop();
    assert!(chatgroup::context::parse_context_jsonl(&truncated).is_none());
}

#[test]
fn context_lines_reject_foreign_shapes() {
    let odd: Vec<char> = "{\"sender\":\"a\"}".chars().collect();
    assert!(parse_context_line(&odd).is_none());
}

#[test]
fn sender_labels_follow_the_sender_type() {
    let agents = vec![agent(9, "bot", "")];
    let user = user_message("hello");
    let s = to_simplified_message(&user, &agents);
    assert_eq!(s.sender, "user:alice");
    assert_eq!(s.content, "hello");

    let mut from_agent = user_message("reply");
    from_agent.sender_type = ChatSenderType::Agent;
    from_agent.sender_id = Some(9);
    assert_eq!(to_simplified_message(&from_agent, &agents).sender, "agent:bot");

    let mut from_unknown_agent = user_message("reply");
    from_unknown_agent.sender_type = ChatSenderType::Agent;
    from_unknown_agent.sender_id = Some(77);
    assert_eq!(
        to_simplified_message(&from_unknown_agent, &agents).sender,
        "agent:agent"
    );

    let mut system = user_message("note");
    system.sender_type = ChatSenderType::System;
    assert_eq!(to_simplified_message(&system, &agents).sender, "system");

    let all: Vec<SimplifiedMessage> =
        build_simplified_messages(&vec![user, from_agent, system], &agents);
    assert_eq!(all.len(), 3);
}

#[test]
fn prompt_carries_all_sections_in_order() {
    let ag = agent(9, "bot", "You are concise.\nMore detail.");
    let sas = vec![chatgroup::model::ChatSessionAgent {
        id: 11,
        session_id: 7,
        agent_id: 9,
        state: chatgroup::model::ChatSessionAgentState::Idle,
        workspace_path: None,
        pty_session_key: None,
        agent_session_id: None,
        agent_message_id: None,
        created_at: "2024-05-01T10:00:00+00:00".to_string(),
        updated_at: "2024-05-01T10:00:00+00:00".to_string(),
    }];
    let agents = vec![ag.clone()];
    let summaries: Vec<SessionAgentSummary> = build_session_agent_summaries(&sas, &agents);
    assert_eq!(summaries.len(), 1);
    assert_eq!(summaries[0].description.as_deref(), Some("You are concise."));

    let msg = user_message("  @bot please help  ");
    let prompt = build_prompt(&ag, &msg, "/ws/ctx/messages.jsonl", &summaries, None, None);

    assert!(prompt.starts_with("[AGENT_ROLE]\nYou are concise.\nMore detail.\n[/AGENT_ROLE]\n\n"));
    let member_line = "- bot: You are concise. (state: Idle)\n";
    assert!(prompt.contains(member_line));
    assert!(prompt.contains("[MESSAGE_ROUTING]\n"));
    assert!(prompt.contains("file_path: /ws/ctx/messages.jsonl\n"));
    assert!(prompt.contains("session_id=00000000-0000-0000-0000-000000000007\n"));
    assert!(prompt.contains("from=user:alice\n"));
    assert!(prompt.contains("to=agent:bot\n"));
    assert!(prompt.ends_with("[USER_MESSAGE]\nalice: @bot please help\n[/USER_MESSAGE]\n"));
    let role_pos = prompt.find("[AGENT_ROLE]").unwrap();
    let members_pos = prompt.find("[GROUP_MEMBERS]").unwrap();
    let routing_pos = prompt.find("[MESSAGE_ROUTING]").unwrap();
    let critical_pos = prompt.find("[CRITICAL_INSTRUCTION]").unwrap();
    let envelope_pos = prompt.find("[ENVELOPE]").unwrap();
    assert!(role_pos < members_pos && members_pos < routing_pos);
    assert!(routing_pos < critical_pos && critical_pos < envelope_pos);
}

#[test]
fn empty_member_list_is_announced() {
    let ag = agent(9, "bot", "");
    let msg = user_message("hello");
    let prompt = build_prompt(&ag, &msg, "/ctx", &Vec::new(), None, None);
    assert!(!prompt.contains("[AGENT_ROLE]"));
    assert!(prompt.contains("- No other AI members\n"));
}

#[test]
fn builtin_catalog_is_closed_under_team_references() {
    let presets = default_chat_presets();
    assert_eq!(presets.members.len(), 22);
    assert_eq!(presets.teams.len(), 8);
    for m in &presets.members {
        assert!(m.is_builtin && m.enabled);
        assert!(m.system_prompt.starts_with("You are the team \""));
    }
    for t in &presets.teams {
        assert!(t.is_builtin && t.enabled);
        for id in &t.member_ids {
            assert!(
                presets.members.iter().any(|m| &m.id == id),
                "team {} names unknown member {}",
                t.id,
                id
            );
        }
    }
    let compression = default_chat_compression();
    assert_eq!(compression.token_threshold, 10_000_000);
    assert_eq!(compression.compression_percentage, 25);
}

#[test]
fn bullets_and_steps_render_exactly() {
    let items = vec!["one", "two"];
    assert_eq!(format_bullets(&items), "- one\n- two");
    assert_eq!(format_steps(&items), "1. one\n2. two");
}

#[test]
fn runner_types_parse_after_normalization() {
    assert_eq!(parse_runner_type(" CLAUDE_CODE "), Some(BaseCodingAgent::ClaudeCode));
    assert_eq!(parse_runner_type("cOdEx"), Some(BaseCodingAgent::Codex));
    assert_eq!(parse_runner_type("CODEX"), Some(BaseCodingAgent::Codex));
    assert_eq!(parse_runner_type("cursor agent"), Some(BaseCodingAgent::CursorAgent));
    assert_eq!(parse_runner_type("unknown-runner"), None);
    assert_eq!(canonical_variant_key(" gpt-5 "), "GPT_5");
    assert_eq!(auto_variant_key("gpt-5"), "AUTO_MODEL_GPT_5");
}

#[test]
fn profile_variant_ignores_default() {
    let none: Vec<(String, String)> = Vec::new();
    assert_eq!(extract_executor_profile_variant(&none), None);
    let default_variant = vec![(
        "executor_profile_variant".to_string(),
        "  Default ".to_string(),
    )];
    assert_eq!(extract_executor_profile_variant(&default_variant), None);
    let real = vec![(
        "executor_profile_variant".to_string(),
        "fast mode".to_string(),
    )];
    assert_eq!(extract_executor_profile_variant(&real).as_deref(), Some("FAST_MODE"));
}

#[test]
fn models_apply_only_to_runners_that_take_them() {
    let claude = CodingAgentConfig { agent: BaseCodingAgent::ClaudeCode, model: None };
    assert!(supports_model(&claude));
    let updated = with_model(&claude, "big-model").expect("model applies");
    assert_eq!(updated.model.as_deref(), Some("big-model"));

    let kimi = CodingAgentConfig { agent: BaseCodingAgent::Kimi, model: None };
    assert!(!supports_model(&kimi));
    assert!(with_model(&kimi, "big-model").is_none());
}

#[test]
fn model_variants_are_mirrored_and_stale_ones_dropped() {
    let mut config = ExecutorConfig {
        default_key: Some("DEFAULT".to_string()),
        configurations: vec![
            (
                "DEFAULT".to_string(),
                CodingAgentConfig { agent: BaseCodingAgent::ClaudeCode, model: None },
            ),
            (
                "AUTO_MODEL_OLD".to_string(),
                CodingAgentConfig {
                    agent: BaseCodingAgent::ClaudeCode,
                    model: Some("old".to_string()),
                },
            ),
        ],
    };
    let models = vec!["m-one".to_string(), "m-two".to_string()];
    let changed = upsert_model_variants(&mut config, &models);
    assert!(changed);
    let keys: Vec<&str> = config.configurations.iter().map(|e| e.0.as_str()).collect();
    assert!(keys.contains(&"DEFAULT"));
    assert!(keys.contains(&"AUTO_MODEL_M_ONE"));
    assert!(keys.contains(&"AUTO_MODEL_M_TWO"));
    assert!(!keys.contains(&"AUTO_MODEL_OLD"));
    let entry = config
        .configurations
        .iter()
        .find(|e| e.0 == "AUTO_MODEL_M_ONE")
        .expect("mirrored variant");
    assert_eq!(entry.1.model.as_deref(), Some("m-one"));

    let unchanged = upsert_model_variants(&mut config, &models);
    assert!(!unchanged, "a settled map reports no change");

    let mut kimi_config = ExecutorConfig {
        default_key: None,
        configurations: vec![(
            "DEFAULT".to_string(),
            CodingAgentConfig { agent: BaseCodingAgent::Kimi, model: None },
        )],
    };
    assert!(!upsert_model_variants(&mut kimi_config, &models));
    assert_eq!(kimi_config.configurations.len(), 1);
}

#[test]
fn kimi_commands_and_stream_extraction() {
    let kimi = KimiCode {
        append_prompt: None,
        model: Some("k2".to_string()),
        yolo: Some(true),
        base_command_override: None,
        additional_params: vec!["--flag".to_string()],
    };
    assert_eq!(KimiCode::base_command(), "kimi");
    assert_eq!(
        kimi.build_initial_args(),
        vec!["--print", "--output-format", "stream-json", "--model", "k2", "--yolo", "--flag"]
    );
    assert_eq!(
        KimiCode::build_follow_up_args(&"KIMI_CONTINUE".to_string()),
        vec!["--continue"]
    );
    assert_eq!(
        KimiCode::build_follow_up_args(&"abc".to_string()),
        vec!["--session", "abc"]
    );
}

#[test]
fn extract_event_type_and_message_supports_wrapped_payload() {
    let payload: JsonValue =
        parse_json("{\"type\":\"assistant\",\"message\":{\"content\":\"hello\"}}").unwrap();
    let (event_type, message) = KimiCode::extract_event_type_and_message(&payload);
    assert_eq!(event_type, "assistant");
    assert_eq!(
        message.get("content").and_then(|v| v.as_str()).map(|s| s.as_str()),
        Some("hello")
    );
}

#[test]
fn extract_event_type_and_message_supports_role_payload() {
    let payload: JsonValue = parse_json("{\"role\":\"assistant\",\"content\":\"hello\"}").unwrap();
    let (event_type, message) = KimiCode::extract_event_type_and_message(&payload);
    assert_eq!(event_type, "assistant");
    assert_eq!(
        message.get("content").and_then(|v| v.as_str()).map(|s| s.as_str()),
        Some("hello")
    );
}

#[test]
fn extract_assistant_text_reads_kimi_stream_json_parts() {
    let message: JsonValue = parse_json(
        "{\"role\":\"assistant\",\"content\":[{\"type\":\"think\",\"think\":\"internal\"},{\"type\":\"text\",\"text\":\"你好，\"},{\"type\":\"text\",\"text\":\"我是 Kimi。\"}]}",
    )
    .unwrap();
    let text = KimiCode::extract_assistant_text(&message);
    assert_eq!(text, "你好，我是 Kimi。");
}

#[test]
fn raw_stream_lines_lose_their_escape_sequences() {
    assert_eq!(
        KimiCode::system_entry_text("\u{1b}[31mwarning\u{1b}[0m: retrying"),
        "warning: retrying"
    );
    assert_eq!(KimiCode::system_entry_text("plain line"), "plain line");
}

#[test]
fn unicode_escapes_decode_in_json_strings() {
    let v = parse_json("{\"k\":\"\\u0041\\u00e9\"}").unwrap();
    assert_eq!(
        v.get("k").and_then(|x| x.as_str()).map(|s| s.as_str()),
        Some("A\u{e9}")
    );
    assert!(parse_json("{\"k\":\"\\ud800\"}").is_none(), "lone surrogates are rejected");
}

#[test]
fn invalid_timestamps_pass_through_the_display_form() {
    assert_eq!(
        chatgroup::context::format_local_timestamp("not-a-time"),
        "not-a-time"
    );
    let shown = chatgroup::context::format_local_timestamp("2024-05-01T10:00:00+00:00");
    assert_eq!(shown.len(), "2024-05-01 10:00:00".len());

    let m = SimplifiedMessage {
        sender: "system".to_string(),
        content: "x".to_string(),
        timestamp: "2024-05-01T10:00:00+00:00".to_string(),
    };
    let line = chatgroup::context::simplified_to_context_line(&m, &shown);
    assert_eq!(line.sender, "system");
    assert_eq!(line.time, shown);
}

#[test]
fn merge_assistant_text_accumulates_snapshots() {
    assert_eq!(
        KimiCode::merge_assistant_text(&"".to_string(), &"hi".to_string()),
        "hi"
    );
    assert_eq!(
        KimiCode::merge_assistant_text(&"hi".to_string(), &"hi there".to_string()),
        "hi there"
    );
    assert_eq!(
        KimiCode::merge_assistant_text(&"hi there".to_string(), &"there".to_string()),
        "hi there"
    );
    assert_eq!(
        KimiCode::merge_assistant_text(&"one".to_string(), &"two".to_string()),
        "onetwo"
    );
}

#[test]
fn json_reader_handles_the_stream_shapes() {
    let v = parse_json(" {\"a\": [1, -2, true, null, \"x\"], \"b\": {\"c\": 2.5}} ").unwrap();
    assert!(v.get("a").is_some());
    assert!(v.get("b").and_then(|b| b.get("c")).is_some());
    assert_eq!(v.get("missing").map(|_| ()), None);
    assert!(parse_json("not json").is_none());
    assert!(parse_json("{\"open\":").is_none());
    let n = parse_json("{\"n\":42}").unwrap();
    assert_eq!(n.get("n").and_then(|x| x.as_u64()), Some(42));
}

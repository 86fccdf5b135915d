//! Token estimation, prefix selection, summarizer choice, and the
//! compression pass with its cache.

use chatgroup::compression::{
    calculate_messages_fingerprint, compression_type_from_db_value, compression_type_to_db_value,
    decode_cache_row, finish_compression, make_cache_entry, plan_compression, CompressionPlan,
    CompressionType,
};
use chatgroup::context::SimplifiedMessage;
use chatgroup::model::{ChatSessionAgent, ChatSessionAgentState};
use chatgroup::summary::{
    all_agents_running, build_summarization_prompt, limit_summary_input_messages,
    prioritize_summary_agents,
};
use chatgroup::tokens::estimate_token_count;

fn msg(sender: &str, content: &str) -> SimplifiedMessage {
    SimplifiedMessage {
        sender: sender.to_string(),
        content: content.to_string(),
        timestamp: "2024-05-01T10:00:00+00:00".to_string(),
    }
}

fn make_session_agent(id: u128, state: ChatSessionAgentState) -> ChatSessionAgent {
    ChatSessionAgent {
        id,
        session_id: 1,
        agent_id: id,
        state,
        workspace_path: None,
        pty_session_key: None,
        agent_session_id: None,
        agent_message_id: None,
        created_at: "2024-05-01T10:00:00+00:00".to_string(),
        updated_at: "2024-05-01T10:00:00+00:00".to_string(),
    }
}

#[test]
fn prioritize_summary_agents_prefers_idle_then_running_last() {
    let running = make_session_agent(1, ChatSessionAgentState::Running);
    let waiting = make_session_agent(2, ChatSessionAgentState::WaitingApproval);
    let idle = make_session_agent(3, ChatSessionAgentState::Idle);
    let dead = make_session_agent(4, ChatSessionAgentState::Dead);

    let prioritized = prioritize_summary_agents(&vec![
        running.clone(),
        waiting.clone(),
        idle.clone(),
        dead.clone(),
    ]);

    assert_eq!(prioritized[0].id, idle.id);
    assert_eq!(prioritized[1].id, waiting.id);
    assert_eq!(prioritized[2].id, dead.id);
    assert_eq!(prioritized[3].id, running.id);
}

#[test]
fn all_agents_running_only_true_when_non_empty_and_all_running() {
    assert!(!all_agents_running(&vec![]));
    assert!(!all_agents_running(&vec![
        make_session_agent(1, ChatSessionAgentState::Running),
        make_session_agent(2, ChatSessionAgentState::Idle),
    ]));
    assert!(all_agents_running(&vec![
        make_session_agent(1, ChatSessionAgentState::Running),
        make_session_agent(2, ChatSessionAgentState::Running),
    ]));
}

#[test]
fn select_messages_to_compress_uses_token_budget() {
    let messages = vec![
        msg("user:alice", &"heavy ".repeat(500)),
        msg("user:bob", "small"),
        msg("agent:bot", "small"),
        msg("agent:bot", "small"),
    ];

    let total_tokens = estimate_token_count(&messages);
    let (count, target_tokens, selected_tokens) =
        chatgroup::compression::select_messages_to_compress_by_token(&messages, total_tokens, 50);

    assert_eq!(count, 1);
    assert!(selected_tokens >= target_tokens);
}

#[test]
fn limit_summary_input_messages_keeps_all_when_under_limit() {
    let messages = vec![msg("user:alice", "short"), msg("agent:bot", "short reply")];

    let (limited, before, after) = limit_summary_input_messages(&messages, u32::MAX);
    assert_eq!(limited.len(), messages.len());
    assert_eq!(before, after);
}

#[test]
fn limit_summary_input_messages_keeps_recent_slice_when_over_limit() {
    let messages = vec![
        msg("user:a", &"old ".repeat(300)),
        msg("agent:b", &"middle ".repeat(300)),
        msg("user:c", &"recent ".repeat(300)),
    ];

    let (limited, before, after) = limit_summary_input_messages(&messages, 200);
    assert!(limited.len() < messages.len());
    assert_eq!(
        limited.last().map(|m| m.content.as_str()),
        Some(messages[2].content.as_str())
    );
    assert!(before > after);
    assert!(after <= 200 || limited.len() == 1);
}

#[test]
fn estimate_is_deterministic() {
    let messages = vec![msg("user:alice", "hello there"), msg("agent:bot", "hi")];
    assert_eq!(estimate_token_count(&messages), estimate_token_count(&messages));
    assert!(estimate_token_count(&messages) > 0);
}

#[test]
fn fingerprint_changes_with_content() {
    let a = vec![msg("user:alice", "hello")];
    let b = vec![msg("user:alice", "hello!")];
    assert_eq!(
        calculate_messages_fingerprint(&a),
        calculate_messages_fingerprint(&a)
    );
    assert_ne!(
        calculate_messages_fingerprint(&a),
        calculate_messages_fingerprint(&b)
    );
}

#[test]
fn compression_type_round_trips_through_store_tags() {
    for t in [
        CompressionType::Unchanged,
        CompressionType::AiSummarized,
        CompressionType::Truncated,
    ] {
        let tag = compression_type_to_db_value(&t);
        assert_eq!(compression_type_from_db_value(tag), Some(t));
    }
    assert_eq!(compression_type_from_db_value("weird"), None);
}

#[test]
fn persisted_cache_rows_decode_exactly_or_not_at_all() {
    let messages = vec![msg("user:alice", "hello")];
    let entry = decode_cache_row(
        "18446744073709551615",
        1,
        10_000_000,
        25,
        7,
        7,
        "truncated",
        None,
        messages,
    )
    .expect("a valid row decodes");
    assert_eq!(entry.source_fingerprint, u64::MAX);
    assert_eq!(entry.source_message_count, 1);
    assert_eq!(entry.result.compression_type, CompressionType::Truncated);
    assert_eq!(entry.result.messages.len(), 1);

    assert!(decode_cache_row("not-a-number", 1, 1, 25, 0, 0, "none", None, Vec::new()).is_none());
    assert!(decode_cache_row("18446744073709551616", 1, 1, 25, 0, 0, "none", None, Vec::new())
        .is_none());
    assert!(decode_cache_row("7", -1, 1, 25, 0, 0, "none", None, Vec::new()).is_none());
    assert!(decode_cache_row("7", 1, 1, 999, 0, 0, "none", None, Vec::new()).is_none());
    assert!(decode_cache_row("7", 1, 1, 25, 0, 0, "weird", None, Vec::new()).is_none());
}

#[test]
fn under_threshold_history_stays_unchanged() {
    let messages = vec![msg("user:alice", "short message"), msg("agent:bot", "another short one")];
    match plan_compression(&messages, u32::MAX, 25, None) {
        CompressionPlan::NoCompression { result } => {
            assert_eq!(result.compression_type, CompressionType::Unchanged);
            assert_eq!(result.messages.len(), messages.len());
            assert!(result.warning.is_none());
        }
        _ => panic!("expected the history to stay unchanged"),
    }
}

#[test]
fn fallback_truncation_archives_prefix_and_warns() {
    let messages = vec![
        msg("user:alice", &"A very long message that should exceed tiny threshold quickly".repeat(8)),
        msg("agent:bot", &"Second long message for compression coverage".repeat(8)),
        msg("user:bob", "Recent message to keep"),
        msg("agent:bot", "Another recent message to keep"),
    ];

    let plan = plan_compression(&messages, 1, 50, None);
    let (effective, prefix_count, selected_tokens, effective_tokens) = match plan {
        CompressionPlan::Compress {
            effective,
            prefix_count,
            selected_tokens,
            effective_tokens,
            ..
        } => (effective, prefix_count, selected_tokens, effective_tokens),
        _ => panic!("a tiny threshold must force compression"),
    };

    let now = "2024-05-01T11:00:00+00:00".to_string();
    let cutoff = "ctx/cutoff_message_0.json".to_string();
    let (result, must_archive) = finish_compression(
        &effective,
        prefix_count,
        selected_tokens,
        effective_tokens,
        None,
        &now,
        &cutoff,
    );

    assert!(must_archive);
    assert_eq!(result.compression_type, CompressionType::Truncated);
    assert!(result.messages.len() <= messages.len());
    assert_eq!(
        result.messages.first().map(|m| m.sender.as_str()),
        Some("system:summary")
    );
    assert!(result
        .messages
        .first()
        .map(|m| m.content.starts_with("[History Summary - Fallback]"))
        .unwrap_or(false));
    let warning = result.warning.as_ref().expect("fallback should include warning");
    assert_eq!(warning.code, "COMPRESSION_FALLBACK");
    assert_eq!(warning.split_file_path, cutoff);
    assert!(estimate_token_count(&result.messages) < estimate_token_count(&messages));
}

#[test]
fn unchanged_history_reuses_cached_result() {
    let messages = vec![
        msg("user:alice", &"A very long message that should exceed tiny threshold quickly".repeat(8)),
        msg("agent:bot", &"Second long message for compression coverage".repeat(8)),
        msg("user:bob", "Recent message to keep"),
    ];

    let plan = plan_compression(&messages, 1, 50, None);
    let (effective, prefix_count, selected_tokens, effective_tokens) = match plan {
        CompressionPlan::Compress {
            effective,
            prefix_count,
            selected_tokens,
            effective_tokens,
            ..
        } => (effective, prefix_count, selected_tokens, effective_tokens),
        _ => panic!("a tiny threshold must force compression"),
    };
    let now = "2024-05-01T11:00:00+00:00".to_string();
    let cutoff = "ctx/cutoff_message_0.json".to_string();
    let (result, _) = finish_compression(
        &effective,
        prefix_count,
        selected_tokens,
        effective_tokens,
        None,
        &now,
        &cutoff,
    );
    let entry = make_cache_entry(&messages, 1, 50, &result);

    match plan_compression(&messages, 1, 50, Some(&entry)) {
        CompressionPlan::CachedHit { result: cached } => {
            assert_eq!(cached.compression_type, CompressionType::Truncated);
            assert_eq!(cached.messages.len(), result.messages.len());
            for (a, b) in cached.messages.iter().zip(result.messages.iter()) {
                assert_eq!(a.sender, b.sender);
                assert_eq!(a.content, b.content);
                assert_eq!(a.timestamp, b.timestamp);
            }
            assert_eq!(
                cached.warning.as_ref().map(|w| w.split_file_path.clone()),
                result.warning.as_ref().map(|w| w.split_file_path.clone())
            );
        }
        _ => panic!("an unchanged history must reuse the cached result"),
    }
}

#[test]
fn appended_history_reuses_compacted_base() {
    let messages = vec![
        msg("user:alice", &"A very long message that should exceed threshold".repeat(200)),
        msg("agent:bot", &"Another very long message for compression".repeat(200)),
        msg("user:bob", "small keep"),
        msg("agent:bot", "small keep too"),
    ];
    let base_tokens = estimate_token_count(&messages);
    let threshold = base_tokens.saturating_sub(1).max(1);

    let plan = plan_compression(&messages, threshold, 50, None);
    let (effective, prefix_count, selected_tokens, effective_tokens) = match plan {
        CompressionPlan::Compress {
            effective,
            prefix_count,
            selected_tokens,
            effective_tokens,
            ..
        } => (effective, prefix_count, selected_tokens, effective_tokens),
        _ => panic!("the history exceeds the threshold"),
    };
    let now = "2024-05-01T11:00:00+00:00".to_string();
    let cutoff = "ctx/cutoff_message_0.json".to_string();
    let (result, _) = finish_compression(
        &effective,
        prefix_count,
        selected_tokens,
        effective_tokens,
        None,
        &now,
        &cutoff,
    );
    let entry = make_cache_entry(&messages, threshold, 50, &result);

    let mut appended = Vec::new();
    for m in &messages {
        appended.push(msg(&m.sender, &m.content));
    }
    appended.push(msg("user:charlie", "new tail message"));

    // the compacted base plus the tail stays under the threshold, so the
    // next pass keeps it and inherits the truncation marker
    match plan_compression(&appended, threshold, 50, Some(&entry)) {
        CompressionPlan::NoCompression { result: second } => {
            assert_eq!(second.compression_type, CompressionType::Truncated);
            assert_eq!(second.messages.len(), result.messages.len() + 1);
            assert_eq!(
                second.messages.last().map(|m| m.content.clone()),
                Some("new tail message".to_string())
            );
            assert!(second.warning.is_some());
        }
        CompressionPlan::Compress { effective, .. } => {
            // even if it still exceeds the budget, the pass starts from
            // the compacted base, not the raw history
            assert_eq!(effective.len(), result.messages.len() + 1);
        }
        CompressionPlan::CachedHit { .. } => panic!("the history changed; no exact hit"),
    }
}

#[test]
fn ai_summary_used_only_when_it_shrinks() {
    let messages = vec![
        msg("user:alice", &"long enough to compress ".repeat(40)),
        msg("agent:bot", "keep me"),
    ];
    let plan = plan_compression(&messages, 1, 50, None);
    let (effective, prefix_count, selected_tokens, effective_tokens) = match plan {
        CompressionPlan::Compress {
            effective,
            prefix_count,
            selected_tokens,
            effective_tokens,
            ..
        } => (effective, prefix_count, selected_tokens, effective_tokens),
        _ => panic!("a tiny threshold must force compression"),
    };
    let now = "2024-05-01T11:00:00+00:00".to_string();
    let cutoff = "ctx/cutoff_message_0.json".to_string();

    let summary = "they talked".to_string();
    let (result, must_archive) = finish_compression(
        &effective,
        prefix_count,
        selected_tokens,
        effective_tokens,
        Some(&summary),
        &now,
        &cutoff,
    );
    assert!(!must_archive);
    assert_eq!(result.compression_type, CompressionType::AiSummarized);
    assert_eq!(
        result.messages.first().map(|m| m.content.clone()),
        Some(format!("[History Summary]\n{}", summary))
    );
    assert!(result.warning.is_none());

    // a summary longer than the history itself falls back to truncation
    let bloated = "really not a summary at all ".repeat(200);
    let (fallback, must_archive2) = finish_compression(
        &effective,
        prefix_count,
        selected_tokens,
        effective_tokens,
        Some(&bloated),
        &now,
        &cutoff,
    );
    assert!(must_archive2);
    assert_eq!(fallback.compression_type, CompressionType::Truncated);
}

#[test]
fn summarization_prompt_lists_messages() {
    let messages = vec![msg("user:alice", "hello"), msg("agent:bot", "hi")];
    let prompt = build_summarization_prompt(&messages);
    assert!(prompt.starts_with("Summarize the following chat history"));
    assert!(prompt.ends_with("Messages:\nuser:alice: hello\nagent:bot: hi\n"));
}

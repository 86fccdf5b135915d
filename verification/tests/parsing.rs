//! Mention, directive, and API-error parsing.

use chatgroup::api_errors::{detect_api_error, NormalizedEntryError};
use chatgroup::mentions::{parse_mentions, parse_send_message_directives};

#[test]
fn parses_mentions_with_basic_tokens() {
    let mentions = parse_mentions("@coder please check @planner");
    assert_eq!(mentions, vec!["coder", "planner"]);
}

#[test]
fn ignores_email_addresses() {
    let mentions = parse_mentions("email me at test@example.com");
    assert!(mentions.is_empty());
}

#[test]
fn de_dupes_mentions_in_order() {
    let mentions = parse_mentions("@a @a @b");
    assert_eq!(mentions, vec!["a", "b"]);
}

#[test]
fn parses_mentions_with_unicode_names() {
    let mentions = parse_mentions(
        "@\u{5C0F}\u{660E} please check @\u{30C6}\u{30B9}\u{30C8}-agent and @\u{0645}\u{0637}\u{0648}\u{0631}_1",
    );
    assert_eq!(
        mentions,
        vec![
            "\u{5C0F}\u{660E}",
            "\u{30C6}\u{30B9}\u{30C8}-agent",
            "\u{0645}\u{0637}\u{0648}\u{0631}_1",
        ]
    );
}

#[test]
fn mention_after_at_sign_still_counts() {
    let mentions = parse_mentions("@@a");
    assert_eq!(mentions, vec!["a"]);
}

#[test]
fn lone_at_sign_yields_nothing() {
    assert!(parse_mentions("@").is_empty());
    assert!(parse_mentions("a @ b").is_empty());
}

#[test]
fn parses_send_message_directives_and_dedupes_targets() {
    let mentions = parse_send_message_directives(
        "notify [sendMessageTo@@{alice}] then [sendMessageTo@@{bob}] and [sendMessageTo@@{alice}]",
    );
    assert_eq!(mentions, vec!["alice", "bob"]);
}

#[test]
fn parse_send_message_directives_ignores_plain_at_mentions() {
    let mentions = parse_send_message_directives("@alice please review this");
    assert!(mentions.is_empty());
}

#[test]
fn parse_send_message_directives_ignores_invalid_targets() {
    let mentions = parse_send_message_directives(
        "[sendMessageTo@@] [sendMessageTo@@{bad target}] [sendMessageTo@@{ok_agent}]",
    );
    assert_eq!(mentions, vec!["ok_agent"]);
}

#[test]
fn parse_send_message_directives_supports_non_brace_targets() {
    let mentions = parse_send_message_directives(
        "[sendMessageTo@@researcher] and [sendMessageTo@@{planner}]",
    );
    assert_eq!(mentions, vec!["researcher", "planner"]);
}

#[test]
fn parse_send_message_directives_supports_unicode_targets() {
    let mentions = parse_send_message_directives(
        "[sendMessageTo@@{\u{5C0F}\u{660E}}] and [sendMessageTo@@{\u{30C6}\u{30B9}\u{30C8}-agent}]",
    );
    assert_eq!(
        mentions,
        vec!["\u{5C0F}\u{660E}", "\u{30C6}\u{30B9}\u{30C8}-agent"]
    );
}

#[test]
fn directive_with_unbalanced_bracket_is_skipped() {
    let mentions = parse_send_message_directives("[sendMessageTo@@{open and [sendMessageTo@@ok]");
    assert_eq!(mentions, vec!["ok"]);
}

#[test]
fn test_detect_claude_quota() {
    let msg = "Error: Anthropic API returned: credit balance exhausted";
    let result = detect_api_error(msg);
    assert!(result.is_some());
    let err = result.unwrap();
    assert!(matches!(
        err.error_type,
        NormalizedEntryError::QuotaExceeded { provider: Some(p) } if p == "Anthropic"
    ));
}

#[test]
fn test_detect_openai_rate_limit() {
    let msg = "OpenAI API error: rate limit exceeded";
    let result = detect_api_error(msg);
    assert!(result.is_some());
    let err = result.unwrap();
    assert!(matches!(
        err.error_type,
        NormalizedEntryError::RateLimitExceeded { provider: Some(p) } if p == "OpenAI"
    ));
}

#[test]
fn test_detect_qwen_quota_chinese() {
    let msg = "DashScope 返回错误: 账户余额不足";
    let result = detect_api_error(msg);
    assert!(result.is_some());
    let err = result.unwrap();
    assert!(matches!(
        err.error_type,
        NormalizedEntryError::QuotaExceeded { provider: Some(p) } if p == "Alibaba"
    ));
}

#[test]
fn test_detect_generic_overload() {
    let msg = "Error: The server is overloaded, please try again later";
    let result = detect_api_error(msg);
    assert!(result.is_some());
    let err = result.unwrap();
    assert!(matches!(
        err.error_type,
        NormalizedEntryError::ServerOverloaded { .. }
    ));
}

#[test]
fn test_no_error_detected() {
    let msg = "Hello, how can I help you today?";
    let result = detect_api_error(msg);
    assert!(result.is_none());
}

#[test]
fn detects_generic_auth_failure() {
    let err = detect_api_error("request failed: unauthorized").unwrap();
    assert!(matches!(
        err.error_type,
        NormalizedEntryError::AuthenticationFailed { provider: None }
    ));
    assert_eq!(err.message, "API authentication failed");
}

#[test]
fn detects_generic_context_limit() {
    let err = detect_api_error("input exceeds the maximum tokens allowed").unwrap();
    assert!(matches!(
        err.error_type,
        NormalizedEntryError::ContextLimitExceeded { provider: None }
    ));
}

#[test]
fn detects_generic_quota() {
    let err = detect_api_error("your account has insufficient credit").unwrap();
    assert!(matches!(
        err.error_type,
        NormalizedEntryError::QuotaExceeded { provider: None }
    ));
}

#[test]
fn provider_rule_wins_over_generic() {
    let err = detect_api_error("Anthropic: rate limit hit").unwrap();
    assert!(matches!(
        err.error_type,
        NormalizedEntryError::RateLimitExceeded { provider: Some(p) } if p == "Anthropic"
    ));
}

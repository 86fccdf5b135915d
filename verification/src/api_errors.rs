//! API error detection for the coding-assistant providers.
//!
//! Matches known quota, rate-limit, overload, authentication and
//! context-limit phrases in executor output, provider-specific patterns
//! first, generic fallbacks last.

use vstd::prelude::*;

use crate::text::{contains_seq, contains_sub, str_to_chars, to_lowercase, unicode_lowercase_of};

verus! {

/// Categorized API error raised by a provider.
#[derive(Debug, Clone, PartialEq)]
pub enum NormalizedEntryError {
    QuotaExceeded { provider: Option<String> },
    RateLimitExceeded { provider: Option<String> },
    ServerOverloaded { provider: Option<String> },
    AuthenticationFailed { provider: Option<String> },
    ContextLimitExceeded { provider: Option<String> },
}

/// Detected API error with categorization.
#[derive(Debug, Clone, PartialEq)]
pub struct DetectedApiError {
    pub error_type: NormalizedEntryError,
    pub message: String,
}

/// Tag naming the category of an error value.
pub open spec fn error_tag(e: NormalizedEntryError) -> Seq<char> {
    match e {
        NormalizedEntryError::QuotaExceeded { .. } => "quota"@,
        NormalizedEntryError::RateLimitExceeded { .. } => "rate_limit"@,
        NormalizedEntryError::ServerOverloaded { .. } => "overload"@,
        NormalizedEntryError::AuthenticationFailed { .. } => "auth"@,
        NormalizedEntryError::ContextLimitExceeded { .. } => "context"@,
    }
}

/// The provider named by an error value, as a character sequence.
pub open spec fn error_provider(e: NormalizedEntryError) -> Option<Seq<char>> {
    match e {
        NormalizedEntryError::QuotaExceeded { provider } => match provider {
            Some(p) => Some(p@),
            None => None,
        },
        NormalizedEntryError::RateLimitExceeded { provider } => match provider {
            Some(p) => Some(p@),
            None => None,
        },
        NormalizedEntryError::ServerOverloaded { provider } => match provider {
            Some(p) => Some(p@),
            None => None,
        },
        NormalizedEntryError::AuthenticationFailed { provider } => match provider {
            Some(p) => Some(p@),
            None => None,
        },
        NormalizedEntryError::ContextLimitExceeded { provider } => match provider {
            Some(p) => Some(p@),
            None => None,
        },
    }
}

pub open spec fn has(l: Seq<char>, pat: Seq<char>) -> bool {
    contains_seq(l, pat)
}

pub open spec fn mentions_anthropic(l: Seq<char>) -> bool {
    has(l, "anthropic"@)
}

pub open spec fn mentions_openai(l: Seq<char>) -> bool {
    has(l, "openai"@) || has(l, "codex"@) || has(l, "gpt-4"@) || has(l, "gpt-3"@) || has(l, "o1-"@)
        || has(l, "o3-"@)
}

pub open spec fn mentions_alibaba(l: Seq<char>) -> bool {
    has(l, "qwen"@) || has(l, "tongyi"@) || has(l, "dashscope"@) || has(l, "aliyun"@) || has(
        l,
        "alibaba"@,
    )
}

pub open spec fn mentions_azure(l: Seq<char>) -> bool {
    has(l, "azure"@) && has(l, "openai"@)
}

pub open spec fn mentions_google(l: Seq<char>) -> bool {
    has(l, "google"@) || has(l, "gemini"@) || has(l, "palm"@) || has(l, "vertex"@)
}

/// The expected classification of lowercased text: category tag, provider,
/// and display message. Provider-specific patterns win over generic
/// fallbacks; the first matching rule decides.
pub open spec fn spec_detect(l: Seq<char>) -> Option<(Seq<char>, Option<Seq<char>>, Seq<char>)> {
    if mentions_anthropic(l) && (has(l, "credit balance"@) || has(l, "credit exhausted"@)) {
        Some(("quota"@, Some("Anthropic"@), "Anthropic credit balance exhausted"@))
    } else if mentions_anthropic(l) && (has(l, "rate limit"@) || has(l, "rate_limit"@)) {
        Some(("rate_limit"@, Some("Anthropic"@), "Anthropic API rate limit exceeded"@))
    } else if mentions_anthropic(l) && has(l, "overloaded"@) {
        Some(("overload"@, Some("Anthropic"@), "Anthropic API is overloaded"@))
    } else if mentions_openai(l) && (has(l, "billing hard limit"@) || has(
        l,
        "exceeded your current quota"@,
    ) || has(l, "insufficient_quota"@)) {
        Some(("quota"@, Some("OpenAI"@), "OpenAI quota exceeded"@))
    } else if mentions_openai(l) && (has(l, "rate limit"@) || has(l, "rate_limit_exceeded"@)) {
        Some(("rate_limit"@, Some("OpenAI"@), "OpenAI API rate limit exceeded"@))
    } else if mentions_openai(l) && (has(l, "context_length_exceeded"@) || has(
        l,
        "maximum context length"@,
    )) {
        Some(("context"@, Some("OpenAI"@), "OpenAI context length exceeded"@))
    } else if mentions_openai(l) && (has(l, "invalid_api_key"@) || has(l, "incorrect api key"@)) {
        Some(("auth"@, Some("OpenAI"@), "OpenAI API key invalid"@))
    } else if mentions_alibaba(l) && (has(l, "quota"@) || has(l, "余额不足"@) || has(l, "账户余额"@)
        || has(l, "免费额度"@)) {
        Some(("quota"@, Some("Alibaba"@), "QWen API 额度已用尽"@))
    } else if mentions_alibaba(l) && (has(l, "rate limit"@) || has(l, "限流"@) || has(
        l,
        "请求过于频繁"@,
    ) || has(l, "qps"@)) {
        Some(("rate_limit"@, Some("Alibaba"@), "QWen API 请求频率超限"@))
    } else if mentions_alibaba(l) && (has(l, "accessdenied"@) || has(l, "invalidaccesskey"@)) {
        Some(("auth"@, Some("Alibaba"@), "QWen API 密钥无效"@))
    } else if mentions_azure(l) && (has(l, "quota"@) || has(l, "tokens per minute"@)) {
        Some(("quota"@, Some("Azure"@), "Azure OpenAI quota exceeded"@))
    } else if mentions_azure(l) && (has(l, "rate limit"@) || has(l, "429"@)) {
        Some(("rate_limit"@, Some("Azure"@), "Azure OpenAI rate limit exceeded"@))
    } else if mentions_google(l) && (has(l, "quota"@) || has(l, "resource_exhausted"@)) {
        Some(("quota"@, Some("Google"@), "Google AI quota exceeded"@))
    } else if mentions_google(l) && (has(l, "rate limit"@) || has(l, "429"@)) {
        Some(("rate_limit"@, Some("Google"@), "Google AI rate limit exceeded"@))
    } else if has(l, "deepseek"@) && (has(l, "quota"@) || has(l, "balance"@)) {
        Some(("quota"@, Some("DeepSeek"@), "DeepSeek quota or credit limit reached"@))
    } else if has(l, "deepseek"@) && (has(l, "rate limit"@) || has(l, "429"@)) {
        Some(("rate_limit"@, Some("DeepSeek"@), "DeepSeek API rate limit exceeded"@))
    } else if has(l, "quota exceeded"@) || has(l, "quota_exceeded"@) || has(l, "credit balance"@)
        || has(l, "credit exhausted"@) || has(l, "insufficient credit"@) || has(
        l,
        "insufficient_quota"@,
    ) || (has(l, "billing"@) && has(l, "limit"@)) || has(l, "余额不足"@) || (has(l, "额度"@) && (has(
        l,
        "用尽"@,
    ) || has(l, "不足"@))) {
        Some(("quota"@, None, "API quota or credit limit reached"@))
    } else if has(l, "rate limit"@) || has(l, "rate_limit"@) || has(l, "too many requests"@) || has(
        l,
        "请求过于频繁"@,
    ) || has(l, "限流"@) {
        Some(("rate_limit"@, None, "API rate limit exceeded"@))
    } else if has(l, "overloaded"@) || has(l, "server is busy"@) || has(l, "503"@) || has(
        l,
        "service unavailable"@,
    ) || has(l, "服务繁忙"@) || has(l, "系统繁忙"@) {
        Some(("overload"@, None, "API server is overloaded"@))
    } else if has(l, "invalid api key"@) || has(l, "invalid_api_key"@) || has(
        l,
        "authentication failed"@,
    ) || has(l, "unauthorized"@) || has(l, "401"@) || has(l, "密钥无效"@) || has(l, "认证失败"@) {
        Some(("auth"@, None, "API authentication failed"@))
    } else if has(l, "context length"@) || has(l, "context_length"@) || has(l, "token limit"@)
        || has(l, "maximum tokens"@) || has(l, "上下文长度"@) || has(l, "超出最大"@) {
        Some(("context"@, None, "Context or token limit exceeded"@))
    } else {
        None
    }
}

/// Whether a detected error agrees with the expected classification.
pub open spec fn detection_matches(
    r: Option<DetectedApiError>,
    expected: Option<(Seq<char>, Option<Seq<char>>, Seq<char>)>,
) -> bool {
    match r {
        Some(d) => match expected {
            Some(e) => error_tag(d.error_type) == e.0 && error_provider(d.error_type) == e.1
                && d.message@ == e.2,
            None => false,
        },
        None => expected is None,
    }
}

fn contains_pat(l: &Vec<char>, pat: &str) -> (r: bool)
    ensures
        r == has(l@, pat@),
{
    let needle: Vec<char> = str_to_chars(pat);
    contains_sub(l, &needle)
}

/// Detect API errors from message content.
///
/// The content is matched case-insensitively: classification is decided
/// by the Unicode-lowercased text, provider-specific rules first.
pub fn detect_api_error(content: &str) -> (r: Option<DetectedApiError>)
    ensures
        detection_matches(r, spec_detect(unicode_lowercase_of(content@))),
{
    let lowered: String = to_lowercase(content);
    let l: Vec<char> = str_to_chars(lowered.as_str());

    let anthropic: bool = contains_pat(&l, "anthropic");
    if anthropic {
        if contains_pat(&l, "credit balance") || contains_pat(&l, "credit exhausted") {
            return Some(DetectedApiError {
                error_type: NormalizedEntryError::QuotaExceeded {
                    provider: Some("Anthropic".to_owned()),
                },
                message: "Anthropic credit balance exhausted".to_owned(),
            });
        }
        if contains_pat(&l, "rate limit") || contains_pat(&l, "rate_limit") {
            return Some(DetectedApiError {
                error_type: NormalizedEntryError::RateLimitExceeded {
                    provider: Some("Anthropic".to_owned()),
                },
                message: "Anthropic API rate limit exceeded".to_owned(),
            });
        }
        if contains_pat(&l, "overloaded") {
            return Some(DetectedApiError {
                error_type: NormalizedEntryError::ServerOverloaded {
                    provider: Some("Anthropic".to_owned()),
                },
                message: "Anthropic API is overloaded".to_owned(),
            });
        }
    }

    let openai: bool = contains_pat(&l, "openai") || contains_pat(&l, "codex") || contains_pat(
        &l,
        "gpt-4",
    ) || contains_pat(&l, "gpt-3") || contains_pat(&l, "o1-") || contains_pat(&l, "o3-");
    if openai {
        if contains_pat(&l, "billing hard limit") || contains_pat(&l, "exceeded your current quota")
            || contains_pat(&l, "insufficient_quota") {
            return Some(DetectedApiError {
                error_type: NormalizedEntryError::QuotaExceeded {
                    provider: Some("OpenAI".to_owned()),
                },
                message: "OpenAI quota exceeded".to_owned(),
            });
        }
        if contains_pat(&l, "rate limit") || contains_pat(&l, "rate_limit_exceeded") {
            return Some(DetectedApiError {
                error_type: NormalizedEntryError::RateLimitExceeded {
                    provider: Some("OpenAI".to_owned()),
                },
                message: "OpenAI API rate limit exceeded".to_owned(),
            });
        }
        if contains_pat(&l, "context_length_exceeded") || contains_pat(&l, "maximum context length")
            {
            return Some(DetectedApiError {
                error_type: NormalizedEntryError::ContextLimitExceeded {
                    provider: Some("OpenAI".to_owned()),
                },
                message: "OpenAI context length exceeded".to_owned(),
            });
        }
        if contains_pat(&l, "invalid_api_key") || contains_pat(&l, "incorrect api key") {
            return Some(DetectedApiError {
                error_type: NormalizedEntryError::AuthenticationFailed {
                    provider: Some("OpenAI".to_owned()),
                },
                message: "OpenAI API key invalid".to_owned(),
            });
        }
    }

    let alibaba: bool = contains_pat(&l, "qwen") || contains_pat(&l, "tongyi") || contains_pat(
        &l,
        "dashscope",
    ) || contains_pat(&l, "aliyun") || contains_pat(&l, "alibaba");
    if alibaba {
        if contains_pat(&l, "quota") || contains_pat(&l, "余额不足") || contains_pat(&l, "账户余额")
            || contains_pat(&l, "免费额度") {
            return Some(DetectedApiError {
                error_type: NormalizedEntryError::QuotaExceeded {
                    provider: Some("Alibaba".to_owned()),
                },
                message: "QWen API 额度已用尽".to_owned(),
            });
        }
        if contains_pat(&l, "rate limit") || contains_pat(&l, "限流") || contains_pat(
            &l,
            "请求过于频繁",
        ) || contains_pat(&l, "qps") {
            return Some(DetectedApiError {
                error_type: NormalizedEntryError::RateLimitExceeded {
                    provider: Some("Alibaba".to_owned()),
                },
                message: "QWen API 请求频率超限".to_owned(),
            });
        }
        if contains_pat(&l, "accessdenied") || contains_pat(&l, "invalidaccesskey") {
            return Some(DetectedApiError {
                error_type: NormalizedEntryError::AuthenticationFailed {
                    provider: Some("Alibaba".to_owned()),
                },
                message: "QWen API 密钥无效".to_owned(),
            });
        }
    }

    let azure: bool = contains_pat(&l, "azure") && contains_pat(&l, "openai");
    if azure {
        if contains_pat(&l, "quota") || contains_pat(&l, "tokens per minute") {
            return Some(DetectedApiError {
                error_type: NormalizedEntryError::QuotaExceeded {
                    provider: Some("Azure".to_owned()),
                },
                message: "Azure OpenAI quota exceeded".to_owned(),
            });
        }
        if contains_pat(&l, "rate limit") || contains_pat(&l, "429") {
            return Some(DetectedApiError {
                error_type: NormalizedEntryError::RateLimitExceeded {
                    provider: Some("Azure".to_owned()),
                },
                message: "Azure OpenAI rate limit exceeded".to_owned(),
            });
        }
    }

    let google: bool = contains_pat(&l, "google") || contains_pat(&l, "gemini") || contains_pat(
        &l,
        "palm",
    ) || contains_pat(&l, "vertex");
    if google {
        if contains_pat(&l, "quota") || contains_pat(&l, "resource_exhausted") {
            return Some(DetectedApiError {
                error_type: NormalizedEntryError::QuotaExceeded {
                    provider: Some("Google".to_owned()),
                },
                message: "Google AI quota exceeded".to_owned(),
            });
        }
        if contains_pat(&l, "rate limit") || contains_pat(&l, "429") {
            return Some(DetectedApiError {
                error_type: NormalizedEntryError::RateLimitExceeded {
                    provider: Some("Google".to_owned()),
                },
                message: "Google AI rate limit exceeded".to_owned(),
            });
        }
    }

    if contains_pat(&l, "deepseek") {
        if contains_pat(&l, "quota") || contains_pat(&l, "balance") {
            return Some(DetectedApiError {
                error_type: NormalizedEntryError::QuotaExceeded {
                    provider: Some("DeepSeek".to_owned()),
                },
                message: "DeepSeek quota or credit limit reached".to_owned(),
            });
        }
        if contains_pat(&l, "rate limit") || contains_pat(&l, "429") {
            return Some(DetectedApiError {
                error_type: NormalizedEntryError::RateLimitExceeded {
                    provider: Some("DeepSeek".to_owned()),
                },
                message: "DeepSeek API rate limit exceeded".to_owned(),
            });
        }
    }

    if contains_pat(&l, "quota exceeded") || contains_pat(&l, "quota_exceeded") || contains_pat(
        &l,
        "credit balance",
    ) || contains_pat(&l, "credit exhausted") || contains_pat(&l, "insufficient credit")
        || contains_pat(&l, "insufficient_quota") || (contains_pat(&l, "billing") && contains_pat(
        &l,
        "limit",
    )) || contains_pat(&l, "余额不足") || (contains_pat(&l, "额度") && (contains_pat(&l, "用尽")
        || contains_pat(&l, "不足"))) {
        return Some(DetectedApiError {
            error_type: NormalizedEntryError::QuotaExceeded { provider: None },
            message: "API quota or credit limit reached".to_owned(),
        });
    }

    if contains_pat(&l, "rate limit") || contains_pat(&l, "rate_limit") || contains_pat(
        &l,
        "too many requests",
    ) || contains_pat(&l, "请求过于频繁") || contains_pat(&l, "限流") {
        return Some(DetectedApiError {
            error_type: NormalizedEntryError::RateLimitExceeded { provider: None },
            message: "API rate limit exceeded".to_owned(),
        });
    }

    if contains_pat(&l, "overloaded") || contains_pat(&l, "server is busy") || contains_pat(
        &l,
        "503",
    ) || contains_pat(&l, "service unavailable") || contains_pat(&l, "服务繁忙") || contains_pat(
        &l,
        "系统繁忙",
    ) {
        return Some(DetectedApiError {
            error_type: NormalizedEntryError::ServerOverloaded { provider: None },
            message: "API server is overloaded".to_owned(),
        });
    }

    if contains_pat(&l, "invalid api key") || contains_pat(&l, "invalid_api_key") || contains_pat(
        &l,
        "authentication failed",
    ) || contains_pat(&l, "unauthorized") || contains_pat(&l, "401") || contains_pat(&l, "密钥无效")
        || contains_pat(&l, "认证失败") {
        return Some(DetectedApiError {
            error_type: NormalizedEntryError::AuthenticationFailed { provider: None },
            message: "API authentication failed".to_owned(),
        });
    }

    if contains_pat(&l, "context length") || contains_pat(&l, "context_length") || contains_pat(
        &l,
        "token limit",
    ) || contains_pat(&l, "maximum tokens") || contains_pat(&l, "上下文长度") || contains_pat(
        &l,
        "超出最大",
    ) {
        return Some(DetectedApiError {
            error_type: NormalizedEntryError::ContextLimitExceeded { provider: None },
            message: "Context or token limit exceeded".to_owned(),
        });
    }

    None
}

} // verus!

//! Message creation rules of the chat service.
//!
//! A message enters a session only when the session is active, an agent
//! message names its agent, and the message carries text or at least one
//! attachment. Mentions are read by the sender's grammar: directives for
//! agents, `@handle` for everyone else.

use vstd::prelude::*;

use crate::mentions::{
    parse_mentions, parse_send_message_directives, spec_parse_mentions,
    spec_parse_send_message_directives, string_views, trimmed,
};
use crate::model::{ChatSenderType, ChatSessionStatus};
use crate::text::str_to_chars;

verus! {

/// Why the chat service refused a request.
#[derive(Debug)]
pub enum ChatServiceError {
    /// The session does not exist.
    SessionNotFound,
    /// The session is archived and accepts no new messages.
    SessionArchived,
    /// The request itself is invalid.
    Validation { message: String },
}

impl ChatServiceError {
    /// Display text of the error.
    pub fn describe(&self) -> (r: String)
        ensures
            match self {
                ChatServiceError::SessionNotFound => r@ == "Chat session not found"@,
                ChatServiceError::SessionArchived => r@ == "Chat session is archived"@,
                ChatServiceError::Validation { message } => r@ == "Validation error: "@
                    + message@,
            },
    {
        match self {
            ChatServiceError::SessionNotFound => "Chat session not found".to_owned(),
            ChatServiceError::SessionArchived => "Chat session is archived".to_owned(),
            ChatServiceError::Validation { message } => {
                let mut out: String = "Validation error: ".to_owned();
                out.append(message.as_str());
                out
            },
        }
    }
}

/// The mentions a new message carries, by its sender's grammar:
/// routing directives for agent messages, `@handle` for user and
/// system messages.
pub open spec fn spec_message_mentions(sender: ChatSenderType, content: Seq<char>) -> Seq<
    Seq<char>,
> {
    if sender == ChatSenderType::Agent {
        spec_parse_send_message_directives(content)
    } else {
        spec_parse_mentions(content)
    }
}

/// Parse the mentions of a new message by its sender's grammar.
pub fn message_mentions(sender_type: ChatSenderType, content: &str) -> (r: Vec<String>)
    ensures
        string_views(r@) == spec_message_mentions(sender_type, content@),
{
    match sender_type {
        ChatSenderType::Agent => parse_send_message_directives(content),
        _ => parse_mentions(content),
    }
}

/// Whether a creation request is acceptable: an agent message must name
/// its agent, the session must exist and be active, and the message
/// must carry trimmed text or an attachment.
pub open spec fn spec_creation_acceptable(
    sender_type: ChatSenderType,
    sender_id: Option<u128>,
    content: Seq<char>,
    has_attachments: bool,
    session_status: Option<ChatSessionStatus>,
) -> bool {
    &&& (sender_type == ChatSenderType::Agent ==> sender_id is Some)
    &&& session_status == Some(ChatSessionStatus::Active)
    &&& (trimmed(content).len() > 0 || has_attachments)
}

/// The refusal a creation request receives, checked in this order: a
/// missing agent id first, then a missing session, then an archived
/// session, then empty content without attachments.
pub open spec fn spec_creation_refusal(
    sender_type: ChatSenderType,
    sender_id: Option<u128>,
    content: Seq<char>,
    has_attachments: bool,
    session_status: Option<ChatSessionStatus>,
    e: ChatServiceError,
) -> bool {
    if sender_type == ChatSenderType::Agent && sender_id is None {
        e matches ChatServiceError::Validation { message } && message@
            == "sender_id is required for agent messages"@
    } else if session_status is None {
        e == ChatServiceError::SessionNotFound
    } else if session_status == Some(ChatSessionStatus::Archived) {
        e == ChatServiceError::SessionArchived
    } else {
        trimmed(content).len() == 0 && !has_attachments && (e matches ChatServiceError::Validation {
            message,
        } && message@ == "content cannot be empty"@)
    }
}

/// Validate a message-creation request against the session's status.
///
/// The refusals are exhaustive and come in a fixed order: a missing
/// agent id first, then a missing session, then an archived session,
/// then — when the trimmed content is empty with no attachments — a
/// validation error; every other request passes.
pub fn validate_message_creation(
    sender_type: ChatSenderType,
    sender_id: Option<u128>,
    content: &str,
    has_attachments: bool,
    session_status: Option<ChatSessionStatus>,
) -> (r: Result<(), ChatServiceError>)
    ensures
        r is Ok <==> spec_creation_acceptable(
            sender_type,
            sender_id,
            content@,
            has_attachments,
            session_status,
        ),
        r is Err ==> spec_creation_refusal(
            sender_type,
            sender_id,
            content@,
            has_attachments,
            session_status,
            r->Err_0,
        ),
{
    if matches!(sender_type, ChatSenderType::Agent) && sender_id.is_none() {
        return Err(ChatServiceError::Validation {
            message: "sender_id is required for agent messages".to_owned(),
        });
    }
    match session_status {
        None => {
            return Err(ChatServiceError::SessionNotFound);
        },
        Some(ChatSessionStatus::Archived) => {
            return Err(ChatServiceError::SessionArchived);
        },
        Some(ChatSessionStatus::Active) => {},
    }
    let content_chars: Vec<char> = str_to_chars(content);
    let trimmed_content: Vec<char> = crate::mentions::trim_chars(&content_chars);
    if trimmed_content.len() == 0 && !has_attachments {
        return Err(ChatServiceError::Validation {
            message: "content cannot be empty".to_owned(),
        });
    }
    Ok(())
}

} // verus!

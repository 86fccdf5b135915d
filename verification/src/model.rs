//! The data model of the chat core.
//!
//! Identifiers are 128-bit values (UUIDs by their bits), timestamps are
//! RFC 3339 strings, and message metadata is held as plain fields rather
//! than an opaque JSON blob; callers outside the crate convert at the
//! boundary.

use vstd::prelude::*;

verus! {

#[derive(Clone, Copy, Debug, PartialEq, Eq, Structural)]
pub enum ChatSenderType {
    User,
    Agent,
    System,
}

#[derive(Clone, Copy, Debug, PartialEq, Eq, Structural)]
pub enum ChatSessionStatus {
    Active,
    Archived,
}

#[derive(Clone, Copy, Debug, PartialEq, Eq, Structural)]
pub enum ChatSessionAgentState {
    Idle,
    Running,
    WaitingApproval,
    Dead,
}

#[derive(Clone, Copy, Debug, PartialEq, Eq, Structural)]
pub enum ChatPermissionTtlType {
    Once,
    Time,
    Session,
}

/// Progress of one mention of one agent on one message.
#[derive(Clone, Copy, Debug, PartialEq, Eq, Structural)]
pub enum MentionStatus {
    Received,
    Running,
    Completed,
    Failed,
}

/// Height of a status in the lattice `Received < Running < Completed|Failed`.
pub open spec fn mention_status_rank(s: MentionStatus) -> int {
    match s {
        MentionStatus::Received => 0,
        MentionStatus::Running => 1,
        MentionStatus::Completed => 2,
        MentionStatus::Failed => 2,
    }
}

/// One mention status may follow another only upward in the lattice.
pub open spec fn mention_status_advances(from: MentionStatus, to: MentionStatus) -> bool {
    mention_status_rank(from) < mention_status_rank(to) || from == to
}

#[derive(Clone, Copy, Debug, PartialEq, Eq, Structural)]
pub enum ChatStreamDeltaType {
    Assistant,
    Thinking,
}

/// One uploaded file attached to a message.
#[derive(Debug)]
pub struct AttachmentMeta {
    pub id: u128,
    pub name: String,
    pub mime_type: Option<String>,
    pub size_bytes: i64,
    pub kind: String,
    pub relative_path: String,
}

/// The metadata of a message that the core reads and writes.
#[derive(Debug)]
pub struct MessageMeta {
    /// Handle of the user that sent the message, if any.
    pub sender_handle: Option<String>,
    /// Number of agent-to-agent forwards that led to this message.
    pub chain_depth: u32,
    /// Per-agent progress of the message's mentions.
    pub mention_statuses: Vec<(String, MentionStatus)>,
    /// Files uploaded with the message.
    pub attachments: Vec<AttachmentMeta>,
    /// An earlier message this one refers to.
    pub reference_message_id: Option<u128>,
}

impl MessageMeta {
    /// Empty metadata: no handle, depth zero, nothing attached.
    pub fn new() -> (r: MessageMeta)
        ensures
            r.sender_handle is None,
            r.chain_depth == 0,
            r.mention_statuses@ =~= Seq::<(String, MentionStatus)>::empty(),
            r.attachments@ =~= Seq::<AttachmentMeta>::empty(),
            r.reference_message_id is None,
    {
        MessageMeta {
            sender_handle: None,
            chain_depth: 0,
            mention_statuses: Vec::new(),
            attachments: Vec::new(),
            reference_message_id: None,
        }
    }
}

#[derive(Debug)]
pub struct ChatMessage {
    pub id: u128,
    pub session_id: u128,
    pub sender_type: ChatSenderType,
    pub sender_id: Option<u128>,
    pub content: String,
    pub mentions: Vec<String>,
    pub meta: MessageMeta,
    pub created_at: String,
}

#[derive(Debug)]
pub struct CreateChatMessage {
    pub session_id: u128,
    pub sender_type: ChatSenderType,
    pub sender_id: Option<u128>,
    pub content: String,
    pub mentions: Vec<String>,
    pub meta: MessageMeta,
}

#[derive(Debug)]
pub struct ChatSession {
    pub id: u128,
    pub title: Option<String>,
    pub status: ChatSessionStatus,
    pub summary_text: Option<String>,
    pub archive_ref: Option<String>,
    pub created_at: String,
    pub updated_at: String,
    pub archived_at: Option<String>,
}

#[derive(Debug)]
pub struct CreateChatSession {
    pub title: Option<String>,
}

#[derive(Debug)]
pub struct UpdateChatSession {
    pub title: Option<String>,
    pub status: Option<ChatSessionStatus>,
    pub summary_text: Option<String>,
    pub archive_ref: Option<String>,
}

#[derive(Debug)]
pub struct ChatAgent {
    pub id: u128,
    pub name: String,
    pub runner_type: String,
    pub system_prompt: String,
    /// Flat key-value form of the agent's tool settings.
    pub tools_enabled: Vec<(String, String)>,
    pub created_at: String,
    pub updated_at: String,
}

#[derive(Debug)]
pub struct CreateChatAgent {
    pub name: String,
    pub runner_type: String,
    pub system_prompt: Option<String>,
    pub tools_enabled: Option<Vec<(String, String)>>,
}

#[derive(Debug)]
pub struct UpdateChatAgent {
    pub name: Option<String>,
    pub runner_type: Option<String>,
    pub system_prompt: Option<String>,
    pub tools_enabled: Option<Vec<(String, String)>>,
}

#[derive(Debug)]
pub struct ChatSessionAgent {
    pub id: u128,
    pub session_id: u128,
    pub agent_id: u128,
    pub state: ChatSessionAgentState,
    pub workspace_path: Option<String>,
    pub pty_session_key: Option<String>,
    pub agent_session_id: Option<String>,
    pub agent_message_id: Option<String>,
    pub created_at: String,
    pub updated_at: String,
}

#[derive(Debug)]
pub struct CreateChatSessionAgent {
    pub session_id: u128,
    pub agent_id: u128,
    pub workspace_path: Option<String>,
}

#[derive(Debug)]
pub struct ChatRun {
    pub id: u128,
    pub session_id: u128,
    pub session_agent_id: u128,
    pub run_index: i64,
    pub run_dir: String,
    pub input_path: Option<String>,
    pub output_path: Option<String>,
    pub raw_log_path: Option<String>,
    pub meta_path: Option<String>,
    pub created_at: String,
}

#[derive(Debug)]
pub struct CreateChatRun {
    pub session_id: u128,
    pub session_agent_id: u128,
    pub run_index: i64,
    pub run_dir: String,
    pub input_path: Option<String>,
    pub output_path: Option<String>,
    pub raw_log_path: Option<String>,
    pub meta_path: Option<String>,
}

#[derive(Debug)]
pub struct ChatPermission {
    pub id: u128,
    pub session_id: u128,
    pub session_agent_id: u128,
    pub capability: String,
    pub scope: Vec<(String, String)>,
    pub ttl_type: ChatPermissionTtlType,
    pub expires_at: Option<String>,
    pub granted_by: Option<String>,
    pub created_at: String,
}

#[derive(Debug)]
pub struct ChatArtifact {
    pub id: u128,
    pub session_id: u128,
    pub name: String,
    pub path: String,
    pub kind: String,
    pub created_by: Option<u128>,
    pub pinned: bool,
    pub created_at: String,
}

#[derive(Debug)]
pub struct ChatMessageListQuery {
    pub limit: Option<i64>,
}

#[derive(Debug)]
pub struct UntrackedFileQuery {
    pub path: String,
}

#[derive(Debug)]
pub struct ChatSessionListQuery {
    pub status: Option<ChatSessionStatus>,
}

#[derive(Debug)]
pub struct CreateChatSessionAgentRequest {
    pub agent_id: u128,
    pub workspace_path: Option<String>,
}

#[derive(Debug)]
pub struct UpdateChatSessionAgentRequest {
    pub workspace_path: Option<String>,
}

#[derive(Debug)]
pub struct CreateChatMessageRequest {
    pub sender_type: ChatSenderType,
    pub sender_id: Option<u128>,
    pub content: String,
    pub meta: Option<MessageMeta>,
}

#[derive(Debug)]
pub struct DeleteMessagesRequest {
    pub message_ids: Vec<u128>,
}


// ------------------------------------------------------------------
// Views
// ------------------------------------------------------------------

/// Mathematical value of an attachment.
pub struct AttachmentMetaView {
    pub id: u128,
    pub name: Seq<char>,
    pub mime_type: Option<Seq<char>>,
    pub size_bytes: i64,
    pub kind: Seq<char>,
    pub relative_path: Seq<char>,
}

impl View for AttachmentMeta {
    type V = AttachmentMetaView;

    open spec fn view(&self) -> AttachmentMetaView {
        AttachmentMetaView {
            id: self.id,
            name: self.name@,
            mime_type: match self.mime_type {
                Some(s) => Some(s@),
                None => None,
            },
            size_bytes: self.size_bytes,
            kind: self.kind@,
            relative_path: self.relative_path@,
        }
    }
}

/// Mathematical value of message metadata.
pub struct MessageMetaView {
    pub sender_handle: Option<Seq<char>>,
    pub chain_depth: u32,
    pub mention_statuses: Seq<(Seq<char>, MentionStatus)>,
    pub attachments: Seq<AttachmentMetaView>,
    pub reference_message_id: Option<u128>,
}

impl View for MessageMeta {
    type V = MessageMetaView;

    open spec fn view(&self) -> MessageMetaView {
        MessageMetaView {
            sender_handle: match self.sender_handle {
                Some(s) => Some(s@),
                None => None,
            },
            chain_depth: self.chain_depth,
            mention_statuses: self.mention_statuses@.map_values(
                |p: (String, MentionStatus)| (p.0@, p.1),
            ),
            attachments: self.attachments@.map_values(|a: AttachmentMeta| a@),
            reference_message_id: self.reference_message_id,
        }
    }
}

/// Mathematical value of a message.
pub struct ChatMessageView {
    pub id: u128,
    pub session_id: u128,
    pub sender_type: ChatSenderType,
    pub sender_id: Option<u128>,
    pub content: Seq<char>,
    pub mentions: Seq<Seq<char>>,
    pub meta: MessageMetaView,
    pub created_at: Seq<char>,
}

impl View for ChatMessage {
    type V = ChatMessageView;

    open spec fn view(&self) -> ChatMessageView {
        ChatMessageView {
            id: self.id,
            session_id: self.session_id,
            sender_type: self.sender_type,
            sender_id: self.sender_id,
            content: self.content@,
            mentions: self.mentions@.map_values(|m: String| m@),
            meta: self.meta@,
            created_at: self.created_at@,
        }
    }
}

/// Mathematical value of an agent catalog entry.
pub struct ChatAgentView {
    pub id: u128,
    pub name: Seq<char>,
    pub runner_type: Seq<char>,
    pub system_prompt: Seq<char>,
    pub tools_enabled: Seq<(Seq<char>, Seq<char>)>,
}

impl View for ChatAgent {
    type V = ChatAgentView;

    open spec fn view(&self) -> ChatAgentView {
        ChatAgentView {
            id: self.id,
            name: self.name@,
            runner_type: self.runner_type@,
            system_prompt: self.system_prompt@,
            tools_enabled: self.tools_enabled@.map_values(
                |p: (String, String)| (p.0@, p.1@),
            ),
        }
    }
}

/// Mathematical value of a session membership.
pub struct ChatSessionAgentView {
    pub id: u128,
    pub session_id: u128,
    pub agent_id: u128,
    pub state: ChatSessionAgentState,
    pub workspace_path: Option<Seq<char>>,
    pub agent_session_id: Option<Seq<char>>,
    pub agent_message_id: Option<Seq<char>>,
}

impl View for ChatSessionAgent {
    type V = ChatSessionAgentView;

    open spec fn view(&self) -> ChatSessionAgentView {
        ChatSessionAgentView {
            id: self.id,
            session_id: self.session_id,
            agent_id: self.agent_id,
            state: self.state,
            workspace_path: match self.workspace_path {
                Some(s) => Some(s@),
                None => None,
            },
            agent_session_id: match self.agent_session_id {
                Some(s) => Some(s@),
                None => None,
            },
            agent_message_id: match self.agent_message_id {
                Some(s) => Some(s@),
                None => None,
            },
        }
    }
}

// ------------------------------------------------------------------
// Copying
// ------------------------------------------------------------------

impl Clone for AttachmentMeta {
    fn clone(&self) -> (r: Self)
        ensures
            r@ == self@,
    {
        AttachmentMeta {
            id: self.id,
            name: self.name.clone(),
            mime_type: clone_opt_string(&self.mime_type),
            size_bytes: self.size_bytes,
            kind: self.kind.clone(),
            relative_path: self.relative_path.clone(),
        }
    }
}

/// Copy of an optional string, equal to the original.
pub fn clone_opt_string(v: &Option<String>) -> (r: Option<String>)
    ensures
        r == *v,
{
    match v {
        Some(s) => Some(s.clone()),
        None => None,
    }
}

/// Copy of a vector of strings, equal to the original.
pub fn clone_string_vec(v: &Vec<String>) -> (r: Vec<String>)
    ensures
        r@ =~= v@,
{
    let mut out: Vec<String> = Vec::new();
    let mut i: usize = 0;
    while i < v.len()
        invariant
            i <= v@.len(),
            out@ =~= v@.subrange(0, i as int),
        decreases v@.len() - i,
    {
        out.push(v[i].clone());
        assert(out@ =~= v@.subrange(0, i as int + 1));
        i += 1;
    }
    assert(v@.subrange(0, v@.len() as int) =~= v@);
    out
}

impl Clone for MessageMeta {
    fn clone(&self) -> (r: Self)
        ensures
            r@ == self@,
    {
        let mut statuses: Vec<(String, MentionStatus)> = Vec::new();
        let mut i: usize = 0;
        while i < self.mention_statuses.len()
            invariant
                i <= self.mention_statuses@.len(),
                statuses@ =~= self.mention_statuses@.subrange(0, i as int),
            decreases self.mention_statuses@.len() - i,
        {
            let pair = &self.mention_statuses[i];
            statuses.push((pair.0.clone(), pair.1));
            assert(statuses@ =~= self.mention_statuses@.subrange(0, i as int + 1));
            i += 1;
        }
        assert(statuses@ =~= self.mention_statuses@);
        let mut attachments: Vec<AttachmentMeta> = Vec::new();
        let mut j: usize = 0;
        while j < self.attachments.len()
            invariant
                j <= self.attachments@.len(),
                attachments@.len() == j,
                attachments@.map_values(|a: AttachmentMeta| a@) =~= self.attachments@.map_values(
                    |a: AttachmentMeta| a@,
                ).subrange(0, j as int),
            decreases self.attachments@.len() - j,
        {
            attachments.push(self.attachments[j].clone());
            assert(attachments@.map_values(|a: AttachmentMeta| a@) =~= self.attachments@.map_values(
                |a: AttachmentMeta| a@,
            ).subrange(0, j as int + 1));
            j += 1;
        }
        assert(attachments@.map_values(|a: AttachmentMeta| a@) =~= self.attachments@.map_values(
            |a: AttachmentMeta| a@,
        ));
        MessageMeta {
            sender_handle: clone_opt_string(&self.sender_handle),
            chain_depth: self.chain_depth,
            mention_statuses: statuses,
            attachments,
            reference_message_id: self.reference_message_id,
        }
    }
}

impl Clone for ChatMessage {
    fn clone(&self) -> (r: Self)
        ensures
            r@ == self@,
    {
        ChatMessage {
            id: self.id,
            session_id: self.session_id,
            sender_type: self.sender_type,
            sender_id: self.sender_id,
            content: self.content.clone(),
            mentions: clone_string_vec(&self.mentions),
            meta: self.meta.clone(),
            created_at: self.created_at.clone(),
        }
    }
}

impl Clone for ChatSessionAgent {
    fn clone(&self) -> (r: Self)
        ensures
            r@ == self@,
    {
        ChatSessionAgent {
            id: self.id,
            session_id: self.session_id,
            agent_id: self.agent_id,
            state: self.state,
            workspace_path: clone_opt_string(&self.workspace_path),
            pty_session_key: clone_opt_string(&self.pty_session_key),
            agent_session_id: clone_opt_string(&self.agent_session_id),
            agent_message_id: clone_opt_string(&self.agent_message_id),
            created_at: self.created_at.clone(),
            updated_at: self.updated_at.clone(),
        }
    }
}

impl Clone for ChatAgent {
    fn clone(&self) -> (r: Self)
        ensures
            r@ == self@,
    {
        let mut tools: Vec<(String, String)> = Vec::new();
        let mut i: usize = 0;
        while i < self.tools_enabled.len()
            invariant
                i <= self.tools_enabled@.len(),
                tools@ =~= self.tools_enabled@.subrange(0, i as int),
            decreases self.tools_enabled@.len() - i,
        {
            let pair = &self.tools_enabled[i];
            tools.push((pair.0.clone(), pair.1.clone()));
            assert(tools@ =~= self.tools_enabled@.subrange(0, i as int + 1));
            i += 1;
        }
        assert(tools@ =~= self.tools_enabled@);
        ChatAgent {
            id: self.id,
            name: self.name.clone(),
            runner_type: self.runner_type.clone(),
            system_prompt: self.system_prompt.clone(),
            tools_enabled: tools,
            created_at: self.created_at.clone(),
            updated_at: self.updated_at.clone(),
        }
    }
}

} // verus!

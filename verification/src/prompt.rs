//! Prompt assembly: the system section naming the agent's role, the
//! group members and the routing protocol, and the user section carrying
//! the envelope, any referenced message, any attachments, and the
//! message itself. The prompt is deterministic byte for byte.

use vstd::prelude::*;

use crate::mentions::trimmed;
use crate::model::{ChatAgent, ChatAgentView, ChatMessage, ChatSenderType, ChatSessionAgent, ChatSessionAgentState};
use crate::runner::{spec_uuid_str, uuid_hyphenated};
use crate::text::{chars_to_string, i64_digits, i64_to_dec, str_to_chars};

verus! {

/// One member as shown in the system prompt.
#[derive(Debug)]
pub struct SessionAgentSummary {
    pub session_agent_id: u128,
    pub agent_id: u128,
    pub name: String,
    pub runner_type: String,
    pub state: ChatSessionAgentState,
    /// First line of the member's role prompt, shown in GROUP_MEMBERS.
    pub description: Option<String>,
    pub system_prompt: Option<String>,
}

/// Mathematical value of a member summary.
pub struct SessionAgentSummaryView {
    pub session_agent_id: u128,
    pub agent_id: u128,
    pub name: Seq<char>,
    pub runner_type: Seq<char>,
    pub state: ChatSessionAgentState,
    pub description: Option<Seq<char>>,
    pub system_prompt: Option<Seq<char>>,
}

impl View for SessionAgentSummary {
    type V = SessionAgentSummaryView;

    open spec fn view(&self) -> SessionAgentSummaryView {
        SessionAgentSummaryView {
            session_agent_id: self.session_agent_id,
            agent_id: self.agent_id,
            name: self.name@,
            runner_type: self.runner_type@,
            state: self.state,
            description: match self.description {
                Some(d) => Some(d@),
                None => None,
            },
            system_prompt: match self.system_prompt {
                Some(p) => Some(p@),
                None => None,
            },
        }
    }
}

/// Views of a vector of member summaries.
pub open spec fn summary_views(v: Seq<SessionAgentSummary>) -> Seq<SessionAgentSummaryView> {
    v.map_values(|m: SessionAgentSummary| m@)
}

/// Display name of a member state.
pub open spec fn spec_state_name(state: ChatSessionAgentState) -> Seq<char> {
    match state {
        ChatSessionAgentState::Idle => "Idle"@,
        ChatSessionAgentState::Running => "Running"@,
        ChatSessionAgentState::WaitingApproval => "WaitingApproval"@,
        ChatSessionAgentState::Dead => "Dead"@,
    }
}

fn state_name(state: ChatSessionAgentState) -> (r: &'static str)
    ensures
        r@ == spec_state_name(state),
{
    match state {
        ChatSessionAgentState::Idle => "Idle",
        ChatSessionAgentState::Running => "Running",
        ChatSessionAgentState::WaitingApproval => "WaitingApproval",
        ChatSessionAgentState::Dead => "Dead",
    }
}

/// The description shown for a member: the first line of its trimmed
/// role prompt, itself trimmed, when non-empty.
pub open spec fn spec_member_description(system_prompt: Seq<char>) -> Option<Seq<char>> {
    let sp = trimmed(system_prompt);
    if sp.len() == 0 {
        None
    } else {
        let first_line = spec_first_line(sp);
        let d = trimmed(first_line);
        if d.len() == 0 {
            None
        } else {
            Some(d)
        }
    }
}

/// The text up to the first line feed.
pub open spec fn spec_first_line(s: Seq<char>) -> Seq<char> {
    if spec_newline_pos(s, 0) == s.len() {
        s
    } else {
        s.subrange(0, spec_newline_pos(s, 0))
    }
}

pub open spec fn spec_newline_pos(s: Seq<char>, i: int) -> int
    decreases s.len() - i + 1,
{
    if i < 0 || i >= s.len() {
        s.len() as int
    } else if s[i] == '\n' {
        i
    } else {
        spec_newline_pos(s, i + 1)
    }
}

fn first_line_of(t: &Vec<char>) -> (r: Vec<char>)
    ensures
        r@ == spec_first_line(t@),
{
    let n: usize = t.len();
    let mut i: usize = 0;
    while i < n
        invariant
            i <= n,
            n == t@.len(),
            spec_newline_pos(t@, 0) == spec_newline_pos(t@, i as int),
            forall|k: int| 0 <= k < i ==> t@[k] != '\n',
        decreases n - i,
    {
        if t[i] == '\n' {
            assert(spec_newline_pos(t@, i as int) == i);
            let line: Vec<char> = crate::text::copy_range(t, 0, i);
            return line;
        }
        i += 1;
    }
    assert(spec_newline_pos(t@, 0) == t@.len());
    let whole: Vec<char> = crate::text::copy_range(t, 0, n);
    assert(whole@ =~= t@);
    whole
}

/// The summary of one member against its catalog entry.
pub open spec fn spec_summary_of(
    sa: crate::model::ChatSessionAgentView,
    ag: ChatAgentView,
) -> SessionAgentSummaryView {
    SessionAgentSummaryView {
        session_agent_id: sa.id,
        agent_id: ag.id,
        name: ag.name,
        runner_type: ag.runner_type,
        state: sa.state,
        description: spec_member_description(ag.system_prompt),
        system_prompt: if trimmed(ag.system_prompt).len() == 0 {
            None
        } else {
            Some(trimmed(ag.system_prompt))
        },
    }
}

/// The member summaries of a session: one per member whose catalog
/// entry exists, in session order.
pub open spec fn spec_summaries(
    sas: Seq<crate::model::ChatSessionAgentView>,
    agents: Seq<ChatAgentView>,
) -> Seq<SessionAgentSummaryView>
    decreases sas.len(),
{
    if sas.len() == 0 {
        Seq::empty()
    } else {
        let rest = spec_summaries(sas.drop_last(), agents);
        match crate::scheduler::spec_agent_for(agents, sas.last().agent_id) {
            None => rest,
            Some(ag) => rest.push(spec_summary_of(sas.last(), ag)),
        }
    }
}

/// Build the member summaries shown in a system prompt: one per member
/// with a catalog entry, in session order, each carrying the catalog
/// name, the member's state, and the first line of the trimmed role
/// prompt as its description.
pub fn build_session_agent_summaries(
    session_agents: &Vec<ChatSessionAgent>,
    agents: &Vec<ChatAgent>,
) -> (r: Vec<SessionAgentSummary>)
    ensures
        summary_views(r@) == spec_summaries(
            crate::scheduler::sa_views(session_agents@),
            crate::scheduler::ag_views(agents@),
        ),
{
    let ghost sas = crate::scheduler::sa_views(session_agents@);
    let ghost ags = crate::scheduler::ag_views(agents@);
    let mut out: Vec<SessionAgentSummary> = Vec::new();
    let mut i: usize = 0;
    assert(summary_views(out@) =~= spec_summaries(sas.subrange(0, 0), ags));
    while i < session_agents.len()
        invariant
            i <= session_agents@.len(),
            sas == crate::scheduler::sa_views(session_agents@),
            ags == crate::scheduler::ag_views(agents@),
            summary_views(out@) == spec_summaries(sas.subrange(0, i as int), ags),
        decreases session_agents@.len() - i,
    {
        let ghost prefix = sas.subrange(0, i as int);
        let ghost next_prefix = sas.subrange(0, i as int + 1);
        proof {
            assert(next_prefix.drop_last() =~= prefix);
            assert(next_prefix.last() == sas[i as int]);
            assert(sas[i as int] == session_agents@[i as int]@);
        }
        let sa = &session_agents[i];
        match crate::scheduler::agent_for(agents, sa.agent_id) {
            None => {},
            Some(agent) => {
                let prompt_chars: Vec<char> = str_to_chars(agent.system_prompt.as_str());
                let sp: Vec<char> = crate::mentions::trim_chars(&prompt_chars);
                let description: Option<String>;
                let system_prompt: Option<String>;
                if sp.len() == 0 {
                    description = None;
                    system_prompt = None;
                } else {
                    let line: Vec<char> = first_line_of(&sp);
                    let d: Vec<char> = crate::mentions::trim_chars(&line);
                    if d.len() == 0 {
                        description = None;
                    } else {
                        description = Some(chars_to_string(&d));
                    }
                    system_prompt = Some(chars_to_string(&sp));
                }
                let summary = SessionAgentSummary {
                    session_agent_id: sa.id,
                    agent_id: agent.id,
                    name: agent.name,
                    runner_type: agent.runner_type,
                    state: sa.state,
                    description,
                    system_prompt,
                };
                proof {
                    assert(summary@ == spec_summary_of(
                        sas[i as int],
                        crate::scheduler::spec_agent_for(ags, sas[i as int].agent_id)->Some_0,
                    ));
                }
                out.push(summary);
                proof {
                    assert(summary_views(out@) =~= spec_summaries(prefix, ags).push(
                        spec_summary_of(
                            sas[i as int],
                            crate::scheduler::spec_agent_for(
                                ags,
                                sas[i as int].agent_id,
                            )->Some_0,
                        ),
                    ));
                }
            },
        }
        i += 1;
    }
    assert(sas.subrange(0, sas.len() as int) =~= sas);
    out
}

/// The GROUP_MEMBERS line of one member:
/// `- <name>: <description> (state: <State>)\n`.
pub open spec fn spec_member_line(m: SessionAgentSummaryView) -> Seq<char> {
    "- "@ + m.name + ": "@ + (match m.description {
        Some(d) => d,
        None => "AI assistant"@,
    }) + " (state: "@ + spec_state_name(m.state) + ")\n"@
}

fn member_line(m: &SessionAgentSummary) -> (r: String)
    ensures
        r@ == spec_member_line(m@),
{
    let mut out: String = "- ".to_owned();
    out.append(m.name.as_str());
    out.append(": ");
    match &m.description {
        Some(d) => out.append(d.as_str()),
        None => out.append("AI assistant"),
    }
    out.append(" (state: ");
    out.append(state_name(m.state));
    out.append(")\n");
    out
}

/// Concatenated member lines of the first `k` members.
pub open spec fn spec_member_lines(members: Seq<SessionAgentSummaryView>, k: int) -> Seq<char>
    decreases k,
{
    if k <= 0 {
        Seq::empty()
    } else {
        spec_member_lines(members, k - 1) + spec_member_line(members[k - 1])
    }
}

/// The fixed MESSAGE_ROUTING section.
pub open spec fn spec_routing_section() -> Seq<char> {
    "[MESSAGE_ROUTING]\nWhen you want to forward work to another member, include an explicit routing marker in your reply:\n[sendMessageTo@@member_name]\nRules:\n- Only this marker triggers forwarding.\n- Both [sendMessageTo@@member_name] and [sendMessageTo@@{member_name}] are accepted.\n- Plain @member text is normal content and never triggers forwarding.\n- member_name must exactly match a name in [GROUP_MEMBERS].\n- Multiple targets are allowed by adding multiple markers.\n[/MESSAGE_ROUTING]\n\n"@
}

/// The whole system section of a prompt.
pub open spec fn spec_system_prompt(
    agent: ChatAgentView,
    members: Seq<SessionAgentSummaryView>,
    history_path: Seq<char>,
) -> Seq<char> {
    let role = if trimmed(agent.system_prompt).len() > 0 {
        "[AGENT_ROLE]\n"@ + trimmed(agent.system_prompt) + "\n[/AGENT_ROLE]\n\n"@
    } else {
        Seq::<char>::empty()
    };
    let members_body = if members.len() == 0 {
        "- No other AI members\n"@
    } else {
        spec_member_lines(members, members.len() as int)
    };
    role + "[GROUP_MEMBERS]\nCurrent AI members in this group:\n"@ + members_body
        + "[/GROUP_MEMBERS]\n\n"@ + spec_routing_section()
        + "[CRITICAL_INSTRUCTION]\nBefore doing any task, you must first read the group chat history file:\nfile_path: "@
        + history_path
        + "\nformat: JSON, containing sender and content fields\nThis is mandatory: understand group context first, then respond.\n[/CRITICAL_INSTRUCTION]\n"@
}

/// Build the system section: agent role, group members, routing
/// protocol, and the instruction to read the history file first.
pub fn build_system_prompt(
    agent: &ChatAgent,
    session_agents: &Vec<SessionAgentSummary>,
    chat_history_path: &str,
) -> (r: String)
    ensures
        r@ == spec_system_prompt(agent@, summary_views(session_agents@), chat_history_path@),
{
    let mut system: String = String::new();
    let prompt_chars: Vec<char> = str_to_chars(agent.system_prompt.as_str());
    let sp: Vec<char> = crate::mentions::trim_chars(&prompt_chars);
    if sp.len() > 0 {
        system.append("[AGENT_ROLE]\n");
        system.append(chars_to_string(&sp).as_str());
        system.append("\n[/AGENT_ROLE]\n\n");
    }
    proof {
        assert(Seq::<char>::empty() + "[AGENT_ROLE]\n"@ =~= "[AGENT_ROLE]\n"@);
    }
    system.append("[GROUP_MEMBERS]\nCurrent AI members in this group:\n");
    let ghost role_and_header = system@;
    if session_agents.len() == 0 {
        system.append("- No other AI members\n");
    } else {
        let ghost members = summary_views(session_agents@);
        let mut i: usize = 0;
        while i < session_agents.len()
            invariant
                i <= session_agents@.len(),
                members == summary_views(session_agents@),
                system@ == role_and_header + spec_member_lines(members, i as int),
            decreases session_agents@.len() - i,
        {
            let line: String = member_line(&session_agents[i]);
            system.append(line.as_str());
            proof {
                assert(members[i as int] == session_agents@[i as int]@);
                assert(role_and_header + spec_member_lines(members, i as int) + spec_member_line(
                    members[i as int],
                ) =~= role_and_header + spec_member_lines(members, i as int + 1));
            }
            i += 1;
        }
    }
    system.append("[/GROUP_MEMBERS]\n\n");
    system.append(
        "[MESSAGE_ROUTING]\nWhen you want to forward work to another member, include an explicit routing marker in your reply:\n[sendMessageTo@@member_name]\nRules:\n- Only this marker triggers forwarding.\n- Both [sendMessageTo@@member_name] and [sendMessageTo@@{member_name}] are accepted.\n- Plain @member text is normal content and never triggers forwarding.\n- member_name must exactly match a name in [GROUP_MEMBERS].\n- Multiple targets are allowed by adding multiple markers.\n[/MESSAGE_ROUTING]\n\n",
    );
    system.append(
        "[CRITICAL_INSTRUCTION]\nBefore doing any task, you must first read the group chat history file:\nfile_path: ",
    );
    system.append(chat_history_path);
    system.append(
        "\nformat: JSON, containing sender and content fields\nThis is mandatory: understand group context first, then respond.\n[/CRITICAL_INSTRUCTION]\n",
    );
    proof {
        assert(system@ =~= spec_system_prompt(
            agent@,
            summary_views(session_agents@),
            chat_history_path@,
        ));
    }
    system
}

/// One attachment carried into a prompt.
#[derive(Debug)]
pub struct ReferenceAttachment {
    pub name: String,
    pub mime_type: Option<String>,
    pub size_bytes: i64,
    pub kind: String,
    pub local_path: String,
}

/// Mathematical value of a prompt attachment.
pub struct ReferenceAttachmentView {
    pub name: Seq<char>,
    pub mime_type: Option<Seq<char>>,
    pub size_bytes: i64,
    pub kind: Seq<char>,
    pub local_path: Seq<char>,
}

impl View for ReferenceAttachment {
    type V = ReferenceAttachmentView;

    open spec fn view(&self) -> ReferenceAttachmentView {
        ReferenceAttachmentView {
            name: self.name@,
            mime_type: match self.mime_type {
                Some(m) => Some(m@),
                None => None,
            },
            size_bytes: self.size_bytes,
            kind: self.kind@,
            local_path: self.local_path@,
        }
    }
}

/// An earlier message the user refers to, staged for the prompt.
#[derive(Debug)]
pub struct ReferenceContext {
    pub message_id: u128,
    pub sender_label: String,
    pub sender_type: ChatSenderType,
    pub created_at: String,
    pub content: String,
    pub attachments: Vec<ReferenceAttachment>,
}

/// The attachments of the triggering message, staged for the prompt.
#[derive(Debug)]
pub struct MessageAttachmentContext {
    pub message_id: u128,
    pub attachments: Vec<ReferenceAttachment>,
}

/// The attachment line of a prompt:
/// `- name=<n> kind=<k> size_bytes=<s> mime_type=<m> local_path=<p>\n`.
pub open spec fn spec_attachment_line(a: ReferenceAttachmentView) -> Seq<char> {
    "- name="@ + a.name + " kind="@ + a.kind + " size_bytes="@ + i64_digits(a.size_bytes)
        + " mime_type="@ + (match a.mime_type {
        Some(m) => m,
        None => "unknown"@,
    }) + " local_path="@ + a.local_path + "\n"@
}

fn attachment_line(a: &ReferenceAttachment) -> (r: String)
    ensures
        r@ == spec_attachment_line(a@),
{
    let mut out: String = "- name=".to_owned();
    out.append(a.name.as_str());
    out.append(" kind=");
    out.append(a.kind.as_str());
    out.append(" size_bytes=");
    out.append(chars_to_string(&i64_to_dec(a.size_bytes)).as_str());
    out.append(" mime_type=");
    match &a.mime_type {
        Some(m) => out.append(m.as_str()),
        None => out.append("unknown"),
    }
    out.append(" local_path=");
    out.append(a.local_path.as_str());
    out.append("\n");
    out
}

/// Concatenated attachment lines of the first `k` attachments.
pub open spec fn spec_attachment_lines(atts: Seq<ReferenceAttachmentView>, k: int) -> Seq<char>
    decreases k,
{
    if k <= 0 {
        Seq::empty()
    } else {
        spec_attachment_lines(atts, k - 1) + spec_attachment_line(atts[k - 1])
    }
}

/// Views of a vector of prompt attachments.
pub open spec fn attachment_views(v: Seq<ReferenceAttachment>) -> Seq<ReferenceAttachmentView> {
    v.map_values(|a: ReferenceAttachment| a@)
}

fn append_attachment_lines(out: &mut String, atts: &Vec<ReferenceAttachment>)
    ensures
        final(out)@ == old(out)@ + spec_attachment_lines(
            attachment_views(atts@),
            atts@.len() as int,
        ),
{
    let ghost base = out@;
    let ghost views = attachment_views(atts@);
    let mut i: usize = 0;
    assert(out@ =~= base + spec_attachment_lines(views, 0));
    while i < atts.len()
        invariant
            i <= atts@.len(),
            views == attachment_views(atts@),
            out@ == base + spec_attachment_lines(views, i as int),
        decreases atts@.len() - i,
    {
        let line: String = attachment_line(&atts[i]);
        out.append(line.as_str());
        proof {
            assert(views[i as int] == atts@[i as int]@);
            assert(base + spec_attachment_lines(views, i as int) + spec_attachment_line(
                views[i as int],
            ) =~= base + spec_attachment_lines(views, i as int + 1));
        }
        i += 1;
    }
}

/// Sender type label used in the reference section.
pub open spec fn spec_sender_type_name(t: ChatSenderType) -> Seq<char> {
    match t {
        ChatSenderType::User => "User"@,
        ChatSenderType::Agent => "Agent"@,
        ChatSenderType::System => "System"@,
    }
}

/// The envelope block of the user section.
pub open spec fn spec_envelope(
    agent: ChatAgentView,
    message: crate::model::ChatMessageView,
    reply_handle: Seq<char>,
) -> Seq<char> {
    "[ENVELOPE]\nsession_id="@ + spec_uuid_str(message.session_id) + "\nfrom=user:"@
        + reply_handle + "\nto=agent:"@ + agent.name + "\nmessage_id="@ + spec_uuid_str(message.id)
        + "\ntimestamp="@ + message.created_at + "\n[/ENVELOPE]\n\n"@
}

/// The reference block of the user section, empty when no message is
/// referenced.
pub open spec fn spec_reference_section(
    reference: Option<(u128, Seq<char>, ChatSenderType, Seq<char>, Seq<char>, Seq<ReferenceAttachmentView>)>,
) -> Seq<char> {
    match reference {
        Some(r) => "[REFERENCE_MESSAGE]\nUser referenced the following historical group chat message. Prioritize it.\nreference_id="@
            + spec_uuid_str(r.0) + "\nreference_sender="@ + r.1 + "\nreference_sender_type="@
            + spec_sender_type_name(r.2) + "\nreference_created_at="@ + r.3 + "\n"@ + (if r.5.len()
            > 0 {
            "reference_attachments:\n"@ + spec_attachment_lines(r.5, r.5.len() as int)
        } else {
            Seq::<char>::empty()
        }) + "reference_content:\n"@ + trimmed(r.4) + "\n[/REFERENCE_MESSAGE]\n\n"@,
        None => Seq::<char>::empty(),
    }
}

/// The attachments block of the user section, empty when the message
/// carries none.
pub open spec fn spec_attachments_section(
    attachments: Option<(u128, Seq<ReferenceAttachmentView>)>,
) -> Seq<char> {
    match attachments {
        Some(a) => if a.1.len() > 0 {
            "[MESSAGE_ATTACHMENTS]\nAttachments included with this message.\nmessage_id="@
                + spec_uuid_str(a.0) + spec_attachment_lines(a.1, a.1.len() as int)
                + "[/MESSAGE_ATTACHMENTS]\n\n"@
        } else {
            Seq::<char>::empty()
        },
        None => Seq::<char>::empty(),
    }
}

/// The closing block carrying the user's own message.
pub open spec fn spec_user_message_block(reply_handle: Seq<char>, content: Seq<char>) -> Seq<char> {
    "[USER_MESSAGE]\n"@ + reply_handle + ": "@ + trimmed(content) + "\n[/USER_MESSAGE]\n"@
}

/// The user section of a prompt: envelope, optional reference message,
/// optional attachments, and the user's message line.
pub open spec fn spec_user_prompt(
    agent: ChatAgentView,
    message: crate::model::ChatMessageView,
    reply_handle: Seq<char>,
    attachments: Option<(u128, Seq<ReferenceAttachmentView>)>,
    reference: Option<(u128, Seq<char>, ChatSenderType, Seq<char>, Seq<char>, Seq<ReferenceAttachmentView>)>,
) -> Seq<char> {
    spec_envelope(agent, message, reply_handle) + spec_reference_section(reference)
        + spec_attachments_section(attachments) + spec_user_message_block(
        reply_handle,
        message.content,
    )
}

fn envelope_section(agent: &ChatAgent, message: &ChatMessage, reply_handle: &String) -> (r: String)
    ensures
        r@ == spec_envelope(agent@, message@, reply_handle@),
{
    let mut out: String = "[ENVELOPE]\nsession_id=".to_owned();
    out.append(uuid_hyphenated(message.session_id).as_str());
    out.append("\nfrom=user:");
    out.append(reply_handle.as_str());
    out.append("\nto=agent:");
    out.append(agent.name.as_str());
    out.append("\nmessage_id=");
    out.append(uuid_hyphenated(message.id).as_str());
    out.append("\ntimestamp=");
    out.append(message.created_at.as_str());
    out.append("\n[/ENVELOPE]\n\n");
    out
}

fn reference_section(rf: &ReferenceContext) -> (r: String)
    ensures
        r@ == spec_reference_section(
            Some(
                (
                    rf.message_id,
                    rf.sender_label@,
                    rf.sender_type,
                    rf.created_at@,
                    rf.content@,
                    attachment_views(rf.attachments@),
                ),
            ),
        ),
{
    let mut out: String =
        "[REFERENCE_MESSAGE]\nUser referenced the following historical group chat message. Prioritize it.\nreference_id=".to_owned();
    out.append(uuid_hyphenated(rf.message_id).as_str());
    out.append("\nreference_sender=");
    out.append(rf.sender_label.as_str());
    out.append("\nreference_sender_type=");
    match rf.sender_type {
        ChatSenderType::User => out.append("User"),
        ChatSenderType::Agent => out.append("Agent"),
        ChatSenderType::System => out.append("System"),
    }
    out.append("\nreference_created_at=");
    out.append(rf.created_at.as_str());
    out.append("\n");
    if rf.attachments.len() > 0 {
        out.append("reference_attachments:\n");
        append_attachment_lines(&mut out, &rf.attachments);
    }
    out.append("reference_content:\n");
    let content_chars: Vec<char> = str_to_chars(rf.content.as_str());
    let tc: Vec<char> = crate::mentions::trim_chars(&content_chars);
    out.append(chars_to_string(&tc).as_str());
    out.append("\n[/REFERENCE_MESSAGE]\n\n");
    out
}

fn attachments_section(atts: &MessageAttachmentContext) -> (r: String)
    ensures
        r@ == spec_attachments_section(Some((atts.message_id, attachment_views(atts.attachments@)))),
{
    if atts.attachments.len() == 0 {
        return String::new();
    }
    let mut out: String =
        "[MESSAGE_ATTACHMENTS]\nAttachments included with this message.\nmessage_id=".to_owned();
    out.append(uuid_hyphenated(atts.message_id).as_str());
    append_attachment_lines(&mut out, &atts.attachments);
    out.append("[/MESSAGE_ATTACHMENTS]\n\n");
    out
}

/// Build the user section of a prompt.
pub fn build_user_prompt(
    agent: &ChatAgent,
    message: &ChatMessage,
    message_attachments: Option<&MessageAttachmentContext>,
    reference: Option<&ReferenceContext>,
) -> (r: String)
    ensures
        r@ == spec_user_prompt(
            agent@,
            message@,
            crate::runner::spec_reply_handle(message@),
            match message_attachments {
                Some(a) => Some((a.message_id, attachment_views(a.attachments@))),
                None => None,
            },
            match reference {
                Some(rf) => Some(
                    (
                        rf.message_id,
                        rf.sender_label@,
                        rf.sender_type,
                        rf.created_at@,
                        rf.content@,
                        attachment_views(rf.attachments@),
                    ),
                ),
                None => None,
            },
        ),
{
    let reply_handle: String = crate::runner::resolve_reply_handle(message);
    let mut prompt: String = envelope_section(agent, message, &reply_handle);
    match reference {
        Some(rf) => {
            let section: String = reference_section(rf);
            prompt.append(section.as_str());
        },
        None => {
            assert(prompt@ + Seq::<char>::empty() =~= prompt@);
        },
    }
    match message_attachments {
        Some(atts) => {
            let section: String = attachments_section(atts);
            prompt.append(section.as_str());
        },
        None => {
            assert(prompt@ + Seq::<char>::empty() =~= prompt@);
        },
    }
    prompt.append("[USER_MESSAGE]\n");
    prompt.append(reply_handle.as_str());
    prompt.append(": ");
    let msg_chars: Vec<char> = str_to_chars(message.content.as_str());
    let mt: Vec<char> = crate::mentions::trim_chars(&msg_chars);
    prompt.append(chars_to_string(&mt).as_str());
    prompt.append("\n[/USER_MESSAGE]\n");
    proof {
        assert(prompt@ =~= spec_user_prompt(
            agent@,
            message@,
            crate::runner::spec_reply_handle(message@),
            match message_attachments {
                Some(a) => Some((a.message_id, attachment_views(a.attachments@))),
                None => None,
            },
            match reference {
                Some(rf) => Some(
                    (
                        rf.message_id,
                        rf.sender_label@,
                        rf.sender_type,
                        rf.created_at@,
                        rf.content@,
                        attachment_views(rf.attachments@),
                    ),
                ),
                None => None,
            },
        ));
    }
    prompt
}

/// The full prompt: the system section, a blank line, the user section.
pub fn build_prompt(
    agent: &ChatAgent,
    message: &ChatMessage,
    context_path: &str,
    session_agents: &Vec<SessionAgentSummary>,
    message_attachments: Option<&MessageAttachmentContext>,
    reference: Option<&ReferenceContext>,
) -> (r: String)
    ensures
        r@ == spec_system_prompt(agent@, summary_views(session_agents@), context_path@) + "\n"@
            + spec_user_prompt(
            agent@,
            message@,
            crate::runner::spec_reply_handle(message@),
            match message_attachments {
                Some(a) => Some((a.message_id, attachment_views(a.attachments@))),
                None => None,
            },
            match reference {
                Some(rf) => Some(
                    (
                        rf.message_id,
                        rf.sender_label@,
                        rf.sender_type,
                        rf.created_at@,
                        rf.content@,
                        attachment_views(rf.attachments@),
                    ),
                ),
                None => None,
            },
        ),
{
    let mut full: String = build_system_prompt(agent, session_agents, context_path);
    full.append("\n");
    let user: String = build_user_prompt(agent, message, message_attachments, reference);
    full.append(user.as_str());
    full
}

} // verus!

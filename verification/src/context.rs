//! Simplified message form consumed by prompt assembly and compression.
//!
//! Every message of a session is reduced to a labelled sender, its
//! content, and its timestamp; this sequence is what gets rendered into
//! the per-session context file and measured for compression.

use vstd::prelude::*;

use crate::model::{ChatAgent, ChatAgentView, ChatMessage, ChatMessageView, ChatSenderType};

verus! {

/// The canonical reduced form of one chat message.
#[derive(Debug)]
pub struct SimplifiedMessage {
    /// `user:<handle>`, `agent:<name>`, `system` or `system:summary`.
    pub sender: String,
    pub content: String,
    /// RFC 3339 timestamp of the original message.
    pub timestamp: String,
}

/// Mathematical value of a simplified message.
pub struct SimplifiedMessageView {
    pub sender: Seq<char>,
    pub content: Seq<char>,
    pub timestamp: Seq<char>,
}

impl View for SimplifiedMessage {
    type V = SimplifiedMessageView;

    open spec fn view(&self) -> SimplifiedMessageView {
        SimplifiedMessageView {
            sender: self.sender@,
            content: self.content@,
            timestamp: self.timestamp@,
        }
    }
}

impl Clone for SimplifiedMessage {
    fn clone(&self) -> (r: Self)
        ensures
            r@ == self@,
    {
        SimplifiedMessage {
            sender: self.sender.clone(),
            content: self.content.clone(),
            timestamp: self.timestamp.clone(),
        }
    }
}

/// Views of a vector of simplified messages.
pub open spec fn message_views(v: Seq<SimplifiedMessage>) -> Seq<SimplifiedMessageView> {
    v.map_values(|m: SimplifiedMessage| m@)
}

/// Copy of a vector of simplified messages, view-equal to the original.
pub fn clone_messages(v: &Vec<SimplifiedMessage>) -> (r: Vec<SimplifiedMessage>)
    ensures
        message_views(r@) == message_views(v@),
        r@.len() == v@.len(),
{
    let mut out: Vec<SimplifiedMessage> = Vec::new();
    let mut i: usize = 0;
    while i < v.len()
        invariant
            i <= v@.len(),
            out@.len() == i,
            message_views(out@) =~= message_views(v@).subrange(0, i as int),
        decreases v@.len() - i,
    {
        out.push(v[i].clone());
        assert(message_views(out@) =~= message_views(v@).subrange(0, i as int + 1));
        i += 1;
    }
    assert(message_views(out@) =~= message_views(v@));
    out
}

/// Append copies of all messages of `src` to `dst`.
pub fn append_all(dst: &mut Vec<SimplifiedMessage>, src: &Vec<SimplifiedMessage>)
    ensures
        final(dst)@.len() == old(dst)@.len() + src@.len(),
        message_views(final(dst)@) == message_views(old(dst)@) + message_views(src@),
{
    let ghost base = message_views(dst@);
    let ghost add = message_views(src@);
    let mut i: usize = 0;
    assert(message_views(dst@) =~= base + add.take(0));
    while i < src.len()
        invariant
            i <= src@.len(),
            add == message_views(src@),
            dst@.len() == old(dst)@.len() + i,
            message_views(dst@) == base + add.take(i as int),
        decreases src@.len() - i,
    {
        dst.push(src[i].clone());
        proof {
            assert(message_views(dst@) =~= (base + add.take(i as int)).push(add[i as int]));
            assert((base + add.take(i as int)).push(add[i as int]) =~= base + add.take(
                i as int + 1,
            ));
        }
        i += 1;
    }
    assert(add.take(src@.len() as int) =~= add);
}

/// The first agent of the catalog with this id, if any.
pub open spec fn spec_agent_name(agents: Seq<ChatAgentView>, id: u128) -> Option<Seq<char>>
    decreases agents.len(),
{
    if agents.len() == 0 {
        None
    } else if agents[0].id == id {
        Some(agents[0].name)
    } else {
        spec_agent_name(agents.drop_first(), id)
    }
}

/// Views of a vector of agents.
pub open spec fn agent_views(v: Seq<ChatAgent>) -> Seq<ChatAgentView> {
    v.map_values(|a: ChatAgent| a@)
}

/// Name of the first catalog agent with this id.
pub fn agent_name_for(agents: &Vec<ChatAgent>, id: u128) -> (r: Option<String>)
    ensures
        match r {
            Some(name) => spec_agent_name(agent_views(agents@), id) == Some(name@),
            None => spec_agent_name(agent_views(agents@), id) is None,
        },
{
    let mut i: usize = 0;
    assert(agent_views(agents@).subrange(0, agents@.len() as int) =~= agent_views(agents@));
    while i < agents.len()
        invariant
            i <= agents@.len(),
            spec_agent_name(agent_views(agents@), id) == spec_agent_name(
                agent_views(agents@).subrange(i as int, agents@.len() as int),
                id,
            ),
            forall|k: int| 0 <= k < i ==> agent_views(agents@)[k].id != id,
        decreases agents@.len() - i,
    {
        let ghost rest = agent_views(agents@).subrange(i as int, agents@.len() as int);
        assert(rest[0] == agent_views(agents@)[i as int]);
        if agents[i].id == id {
            return Some(agents[i].name.clone());
        }
        assert(rest.drop_first() =~= agent_views(agents@).subrange(
            i as int + 1,
            agents@.len() as int,
        ));
        i += 1;
    }
    assert(agent_views(agents@).subrange(agents@.len() as int, agents@.len() as int)
        =~= Seq::<ChatAgentView>::empty());
    None
}

/// The sender label of a message: `user:<handle>` for users (the handle
/// defaulting to `user`), `agent:<name>` for agents (the catalog name,
/// else `agent`), and `system` otherwise.
pub open spec fn spec_sender_label(m: ChatMessageView, agents: Seq<ChatAgentView>) -> Seq<char> {
    match m.sender_type {
        ChatSenderType::User => "user:"@ + match m.meta.sender_handle {
            Some(h) => h,
            None => "user"@,
        },
        ChatSenderType::Agent => "agent:"@ + match m.sender_id {
            Some(id) => match spec_agent_name(agents, id) {
                Some(name) => name,
                None => "agent"@,
            },
            None => "agent"@,
        },
        ChatSenderType::System => "system"@,
    }
}

/// Convert one message to its simplified form against the agent catalog.
pub fn to_simplified_message(message: &ChatMessage, agents: &Vec<ChatAgent>) -> (r:
    SimplifiedMessage)
    ensures
        r@.sender == spec_sender_label(message@, agent_views(agents@)),
        r@.content == message@.content,
        r@.timestamp == message@.created_at,
{
    let sender: String = match message.sender_type {
        ChatSenderType::User => {
            let handle: String = match &message.meta.sender_handle {
                Some(h) => h.clone(),
                None => "user".to_owned(),
            };
            "user:".to_owned().concat(handle.as_str())
        },
        ChatSenderType::Agent => {
            let name: String = match message.sender_id {
                Some(id) => match agent_name_for(agents, id) {
                    Some(n) => n,
                    None => "agent".to_owned(),
                },
                None => "agent".to_owned(),
            };
            "agent:".to_owned().concat(name.as_str())
        },
        ChatSenderType::System => "system".to_owned(),
    };
    SimplifiedMessage {
        sender,
        content: message.content.clone(),
        timestamp: message.created_at.clone(),
    }
}

/// Simplified views of a whole session history, oldest first.
pub open spec fn spec_simplified(
    msgs: Seq<ChatMessageView>,
    agents: Seq<ChatAgentView>,
) -> Seq<SimplifiedMessageView> {
    msgs.map_values(
        |m: ChatMessageView| SimplifiedMessageView {
            sender: spec_sender_label(m, agents),
            content: m.content,
            timestamp: m.created_at,
        },
    )
}

/// Views of a vector of chat messages.
pub open spec fn chat_message_views(v: Seq<ChatMessage>) -> Seq<ChatMessageView> {
    v.map_values(|m: ChatMessage| m@)
}

/// Convert a session's messages, ordered oldest first, to their
/// simplified form.
pub fn build_simplified_messages(messages: &Vec<ChatMessage>, agents: &Vec<ChatAgent>) -> (r: Vec<
    SimplifiedMessage,
>)
    ensures
        message_views(r@) == spec_simplified(chat_message_views(messages@), agent_views(agents@)),
{
    let mut out: Vec<SimplifiedMessage> = Vec::new();
    let mut i: usize = 0;
    while i < messages.len()
        invariant
            i <= messages@.len(),
            out@.len() == i,
            message_views(out@) =~= spec_simplified(
                chat_message_views(messages@),
                agent_views(agents@),
            ).subrange(0, i as int),
        decreases messages@.len() - i,
    {
        out.push(to_simplified_message(&messages[i], agents));
        assert(message_views(out@) =~= spec_simplified(
            chat_message_views(messages@),
            agent_views(agents@),
        ).subrange(0, i as int + 1));
        i += 1;
    }
    assert(message_views(out@) =~= spec_simplified(
        chat_message_views(messages@),
        agent_views(agents@),
    ));
    out
}

// ------------------------------------------------------------------
// The context file
// ------------------------------------------------------------------

/// One line of the per-session context file: the sender label, the
/// content, and the display time.
#[derive(Debug)]
pub struct ContextLine {
    pub sender: String,
    pub content: String,
    pub time: String,
}

/// Mathematical value of a context line.
pub struct ContextLineView {
    pub sender: Seq<char>,
    pub content: Seq<char>,
    pub time: Seq<char>,
}

impl View for ContextLine {
    type V = ContextLineView;

    open spec fn view(&self) -> ContextLineView {
        ContextLineView { sender: self.sender@, content: self.content@, time: self.time@ }
    }
}

impl Clone for ContextLine {
    fn clone(&self) -> (r: Self)
        ensures
            r@ == self@,
    {
        ContextLine {
            sender: self.sender.clone(),
            content: self.content.clone(),
            time: self.time.clone(),
        }
    }
}

/// Relies on chrono::DateTime::parse_from_rfc3339 and the Local
/// timezone's formatting: renders an RFC 3339 timestamp in the
/// machine's local `YYYY-MM-DD HH:MM:SS` form, or returns the input
/// unchanged when it does not parse. The result depends on the
/// machine's time zone — and on the TZ environment, which may change
/// between two calls of one process — so nothing is claimed of it;
/// rendering takes the display text as an argument.
#[verifier::external_body]
pub fn format_local_timestamp(ts: &str) -> (r: String)
{
    match chrono::DateTime::parse_from_rfc3339(ts) {
        Ok(dt) => dt.with_timezone(&chrono::Local).format("%Y-%m-%d %H:%M:%S").to_string(),
        Err(_) => ts.to_string(),
    }
}

/// Reduce a simplified message to its context line. The display form of
/// the timestamp is supplied by the caller (for the machine-local
/// rendering, from `format_local_timestamp`), since it is not a
/// function of the message alone.
pub fn simplified_to_context_line(m: &SimplifiedMessage, time_display: &String) -> (r: ContextLine)
    ensures
        r@.sender == m@.sender,
        r@.content == m@.content,
        r@.time == time_display@,
{
    ContextLine {
        sender: m.sender.clone(),
        content: m.content.clone(),
        time: time_display.clone(),
    }
}

pub open spec fn ctx_head() -> Seq<char> {
    "{\"sender\":\""@
}

pub open spec fn ctx_mid1() -> Seq<char> {
    "\",\"content\":\""@
}

pub open spec fn ctx_mid2() -> Seq<char> {
    "\",\"time\":\""@
}

pub open spec fn ctx_tail() -> Seq<char> {
    "\"}"@
}

/// The exact text of one context line:
/// `{"sender":<s>,"content":<c>,"time":<t>}` with JSON string escaping.
pub open spec fn spec_context_line_text(l: ContextLineView) -> Seq<char> {
    ctx_head() + crate::json::spec_escape(l.sender) + ctx_mid1() + crate::json::spec_escape(
        l.content,
    ) + ctx_mid2() + crate::json::spec_escape(l.time) + ctx_tail()
}

/// Render one context line.
pub fn context_line_to_text(l: &ContextLine) -> (r: Vec<char>)
    ensures
        r@ == spec_context_line_text(l@),
{
    let mut out: Vec<char> = Vec::new();
    let head: Vec<char> = crate::text::str_to_chars("{\"sender\":\"");
    let mid1: Vec<char> = crate::text::str_to_chars("\",\"content\":\"");
    let mid2: Vec<char> = crate::text::str_to_chars("\",\"time\":\"");
    let tail: Vec<char> = crate::text::str_to_chars("\"}");
    crate::context::append_chars(&mut out, &head);
    let sender_chars: Vec<char> = crate::text::str_to_chars(l.sender.as_str());
    crate::json::push_escaped(&mut out, &sender_chars);
    crate::context::append_chars(&mut out, &mid1);
    let content_chars: Vec<char> = crate::text::str_to_chars(l.content.as_str());
    crate::json::push_escaped(&mut out, &content_chars);
    crate::context::append_chars(&mut out, &mid2);
    let time_chars: Vec<char> = crate::text::str_to_chars(l.time.as_str());
    crate::json::push_escaped(&mut out, &time_chars);
    crate::context::append_chars(&mut out, &tail);
    assert(out@ =~= spec_context_line_text(l@));
    out
}

/// Append all characters of `src` to `out`.
pub fn append_chars(out: &mut Vec<char>, src: &Vec<char>)
    ensures
        final(out)@ == old(out)@ + src@,
{
    let mut i: usize = 0;
    assert(out@ =~= old(out)@ + src@.subrange(0, 0));
    while i < src.len()
        invariant
            i <= src@.len(),
            out@ == old(out)@ + src@.subrange(0, i as int),
        decreases src@.len() - i,
    {
        out.push(src[i]);
        assert(out@ =~= old(out)@ + src@.subrange(0, i as int + 1));
        i += 1;
    }
    assert(src@.subrange(0, src@.len() as int) =~= src@);
}

/// Parse of one context line, inverting `spec_context_line_text`.
pub open spec fn spec_parse_context_line(cs: Seq<char>) -> Option<ContextLineView> {
    if !crate::text::matches_at(cs, 0, ctx_head()) {
        None
    } else {
        match crate::json::spec_parse_string(cs, ctx_head().len() as int, Seq::empty()) {
            None => None,
            Some((sender, p1)) => if !crate::text::matches_at(cs, p1, ctx_after_sender()) {
                None
            } else {
                match crate::json::spec_parse_string(
                    cs,
                    p1 + ctx_after_sender().len(),
                    Seq::empty(),
                ) {
                    None => None,
                    Some((content, p2)) => if !crate::text::matches_at(
                        cs,
                        p2,
                        ctx_after_content(),
                    ) {
                        None
                    } else {
                        match crate::json::spec_parse_string(
                            cs,
                            p2 + ctx_after_content().len(),
                            Seq::empty(),
                        ) {
                            None => None,
                            Some((time, p3)) => if p3 + 1 == cs.len() && cs[p3] == '}' {
                                Some(ContextLineView { sender, content, time })
                            } else {
                                None
                            },
                        }
                    },
                }
            },
        }
    }
}

/// What follows the sender string's closing quote.
pub open spec fn ctx_after_sender() -> Seq<char> {
    ",\"content\":\""@
}

/// What follows the content string's closing quote.
pub open spec fn ctx_after_content() -> Seq<char> {
    ",\"time\":\""@
}

/// Read one context line.
pub fn parse_context_line(cs: &Vec<char>) -> (r: Option<ContextLine>)
    ensures
        match r {
            Some(l) => spec_parse_context_line(cs@) == Some(l@),
            None => spec_parse_context_line(cs@) is None,
        },
{
    let head: Vec<char> = crate::text::str_to_chars("{\"sender\":\"");
    let after_sender: Vec<char> = crate::text::str_to_chars(",\"content\":\"");
    let after_content: Vec<char> = crate::text::str_to_chars(",\"time\":\"");
    proof {
        reveal_strlit("{\"sender\":\"");
        reveal_strlit(",\"content\":\"");
        reveal_strlit(",\"time\":\"");
        assert(head@.len() == 11);
        assert(after_sender@.len() == 12);
        assert(after_content@.len() == 9);
    }
    let n: usize = cs.len();
    if n < 11 {
        assert(!crate::text::matches_at(cs@, 0, ctx_head()));
        return None;
    }
    if !crate::json::expect_literal(cs, 0, &head) {
        return None;
    }
    let (sender_chars, p1) = match crate::json::parse_string_body(cs, 11) {
        Some(sp) => sp,
        None => {
            return None;
        },
    };
    if !crate::json::expect_literal(cs, p1, &after_sender) {
        return None;
    }
    let (content_chars, p2) = match crate::json::parse_string_body(cs, p1 + 12) {
        Some(cp) => cp,
        None => {
            return None;
        },
    };
    if !crate::json::expect_literal(cs, p2, &after_content) {
        return None;
    }
    let (time_chars, p3) = match crate::json::parse_string_body(cs, p2 + 9) {
        Some(tp) => tp,
        None => {
            return None;
        },
    };
    if p3 < n && cs[p3] == '}' && p3 + 1 == n {
        Some(ContextLine {
            sender: crate::text::chars_to_string(&sender_chars),
            content: crate::text::chars_to_string(&content_chars),
            time: crate::text::chars_to_string(&time_chars),
        })
    } else {
        None
    }
}

/// Writing a context line and reading it back reproduces the line
/// exactly — the round trip through the context file is lossless.
pub proof fn lemma_context_line_round_trip(l: ContextLineView)
    ensures
        spec_parse_context_line(spec_context_line_text(l)) == Some(l),
{
    let t = spec_context_line_text(l);
    let es = crate::json::spec_escape(l.sender);
    let ec = crate::json::spec_escape(l.content);
    let et = crate::json::spec_escape(l.time);
    proof_ctx_literal_facts();
    let h = ctx_head();
    let m1 = ctx_mid1();
    let m2 = ctx_mid2();
    let e = ctx_tail();
    // positions of the pieces inside the full text
    let o1 = h.len() as int;
    let o2 = o1 + es.len();
    let o3 = o2 + m1.len();
    let o4 = o3 + ec.len();
    let o5 = o4 + m2.len();
    let o6 = o5 + et.len();
    assert(t.len() == o6 + e.len());
    assert forall|k: int| 0 <= k < t.len() implies t[k] == ctx_concat_index(l, k) by {
        lemma_ctx_index(l, k);
    }
    // head literal
    assert(crate::text::matches_at(t, 0, h)) by {
        assert forall|k: int| 0 <= k < h.len() implies t.subrange(0, o1)[k] == h[k] by {
            assert(t.subrange(0, o1)[k] == t[k]);
            lemma_ctx_index(l, k);
        }
        assert(t.subrange(0, o1) =~= h);
    }
    // sender string closes on the quote that opens `","content":"`
    assert(t.subrange(o1, o1 + es.len()) =~= es) by {
        assert forall|k: int| 0 <= k < es.len() implies t.subrange(o1, o1 + es.len())[k]
            == es[k] by {
            assert(t.subrange(o1, o1 + es.len())[k] == t[o1 + k]);
            lemma_ctx_index(l, o1 + k);
        }
    }
    assert(t[o2] == '"') by {
        lemma_ctx_index(l, o2);
    }
    crate::json::lemma_escape_round_trip(t, o1, l.sender);
    // the rest of `","content":"` after the consumed quote
    assert(crate::text::matches_at(t, o2 + 1, ctx_after_sender())) by {
        assert forall|k: int| 0 <= k < ctx_after_sender().len() implies t.subrange(
            o2 + 1,
            o2 + 1 + ctx_after_sender().len(),
        )[k] == ctx_after_sender()[k] by {
            assert(t.subrange(o2 + 1, o2 + 1 + ctx_after_sender().len())[k] == t[o2 + 1 + k]);
            lemma_ctx_index(l, o2 + 1 + k);
        }
        assert(t.subrange(o2 + 1, o2 + 1 + ctx_after_sender().len()) =~= ctx_after_sender());
    }
    // content string
    assert(t.subrange(o3, o3 + ec.len()) =~= ec) by {
        assert forall|k: int| 0 <= k < ec.len() implies t.subrange(o3, o3 + ec.len())[k]
            == ec[k] by {
            assert(t.subrange(o3, o3 + ec.len())[k] == t[o3 + k]);
            lemma_ctx_index(l, o3 + k);
        }
    }
    assert(t[o4] == '"') by {
        lemma_ctx_index(l, o4);
    }
    crate::json::lemma_escape_round_trip(t, o3, l.content);
    assert(crate::text::matches_at(t, o4 + 1, ctx_after_content())) by {
        assert forall|k: int| 0 <= k < ctx_after_content().len() implies t.subrange(
            o4 + 1,
            o4 + 1 + ctx_after_content().len(),
        )[k] == ctx_after_content()[k] by {
            assert(t.subrange(o4 + 1, o4 + 1 + ctx_after_content().len())[k] == t[o4 + 1 + k]);
            lemma_ctx_index(l, o4 + 1 + k);
        }
        assert(t.subrange(o4 + 1, o4 + 1 + ctx_after_content().len()) =~= ctx_after_content());
    }
    // time string
    assert(t.subrange(o5, o5 + et.len()) =~= et) by {
        assert forall|k: int| 0 <= k < et.len() implies t.subrange(o5, o5 + et.len())[k]
            == et[k] by {
            assert(t.subrange(o5, o5 + et.len())[k] == t[o5 + k]);
            lemma_ctx_index(l, o5 + k);
        }
    }
    assert(t[o6] == '"') by {
        lemma_ctx_index(l, o6);
    }
    crate::json::lemma_escape_round_trip(t, o5, l.time);
    assert(t[o6 + 1] == '}') by {
        lemma_ctx_index(l, o6 + 1);
    }
}

/// The character of the rendered line at one position, by case.
pub open spec fn ctx_concat_index(l: ContextLineView, k: int) -> char {
    let es = crate::json::spec_escape(l.sender);
    let ec = crate::json::spec_escape(l.content);
    let et = crate::json::spec_escape(l.time);
    let o1 = ctx_head().len() as int;
    let o2 = o1 + es.len();
    let o3 = o2 + ctx_mid1().len();
    let o4 = o3 + ec.len();
    let o5 = o4 + ctx_mid2().len();
    let o6 = o5 + et.len();
    if k < o1 {
        ctx_head()[k]
    } else if k < o2 {
        es[k - o1]
    } else if k < o3 {
        ctx_mid1()[k - o2]
    } else if k < o4 {
        ec[k - o3]
    } else if k < o5 {
        ctx_mid2()[k - o4]
    } else if k < o6 {
        et[k - o5]
    } else {
        ctx_tail()[k - o6]
    }
}

proof fn lemma_ctx_index(l: ContextLineView, k: int)
    requires
        0 <= k < spec_context_line_text(l).len(),
    ensures
        spec_context_line_text(l)[k] == ctx_concat_index(l, k),
        k == ctx_head().len() + crate::json::spec_escape(l.sender).len() ==> spec_context_line_text(
            l,
        )[k] == '"',
        k == ctx_head().len() + crate::json::spec_escape(l.sender).len() + ctx_mid1().len()
            + crate::json::spec_escape(l.content).len() ==> spec_context_line_text(l)[k] == '"',
        k == spec_context_line_text(l).len() - 2 ==> spec_context_line_text(l)[k] == '"',
        k == spec_context_line_text(l).len() - 1 ==> spec_context_line_text(l)[k] == '}',
{
    proof_ctx_literal_facts();
}

proof fn proof_ctx_literal_facts()
    ensures
        ctx_head().len() == 11,
        ctx_mid1().len() == 13,
        ctx_mid2().len() == 10,
        ctx_tail().len() == 2,
        ctx_mid1()[0] == '"',
        ctx_mid2()[0] == '"',
        ctx_tail()[0] == '"',
        ctx_tail()[1] == '}',
        ctx_after_sender() =~= ctx_mid1().drop_first(),
        ctx_after_content() =~= ctx_mid2().drop_first(),
{
    reveal_strlit("{\"sender\":\"");
    reveal_strlit("\",\"content\":\"");
    reveal_strlit("\",\"time\":\"");
    reveal_strlit(",\"content\":\"");
    reveal_strlit(",\"time\":\"");
    reveal_strlit("\"}");
}

// ------------------------------------------------------------------
// The whole context file
// ------------------------------------------------------------------

/// The rendered context file: one line per message, each closed by a
/// line feed.
pub open spec fn spec_render_jsonl(lines: Seq<ContextLineView>) -> Seq<char>
    decreases lines.len(),
{
    if lines.len() == 0 {
        Seq::empty()
    } else {
        spec_context_line_text(lines.first()) + seq!['\n'] + spec_render_jsonl(lines.drop_first())
    }
}

/// Parse of a whole context file: every line must end with a line feed
/// and parse as a context line.
pub open spec fn spec_parse_jsonl(cs: Seq<char>) -> Option<Seq<ContextLineView>>
    decreases cs.len(),
    via spec_parse_jsonl_decreases
{
    if cs.len() == 0 {
        Some(Seq::empty())
    } else {
        let p = spec_nl_pos(cs, 0);
        if p >= cs.len() {
            None
        } else {
            match spec_parse_context_line(cs.subrange(0, p)) {
                None => None,
                Some(l) => match spec_parse_jsonl(cs.subrange(p + 1, cs.len() as int)) {
                    None => None,
                    Some(rest) => Some(seq![l] + rest),
                },
            }
        }
    }
}

#[via_fn]
proof fn spec_parse_jsonl_decreases(cs: Seq<char>) {
    if cs.len() > 0 {
        lemma_nl_pos_props(cs, 0);
    }
}

/// First position at or after `i` holding a line feed; the length when
/// there is none.
pub open spec fn spec_nl_pos(cs: Seq<char>, i: int) -> int
    decreases cs.len() - i + 1,
{
    if i < 0 || i >= cs.len() {
        cs.len() as int
    } else if cs[i] == '\n' {
        i
    } else {
        spec_nl_pos(cs, i + 1)
    }
}

proof fn lemma_nl_pos_props(cs: Seq<char>, i: int)
    requires
        0 <= i <= cs.len(),
    ensures
        i <= spec_nl_pos(cs, i) <= cs.len(),
        spec_nl_pos(cs, i) < cs.len() ==> cs[spec_nl_pos(cs, i)] == '\n',
        forall|m: int| i <= m < spec_nl_pos(cs, i) ==> cs[m] != '\n',
    decreases cs.len() - i + 1,
{
    if i < cs.len() && cs[i] != '\n' {
        lemma_nl_pos_props(cs, i + 1);
    }
}

proof fn lemma_nl_pos_exact(cs: Seq<char>, p: int)
    requires
        0 <= p < cs.len(),
        cs[p] == '\n',
        forall|m: int| 0 <= m < p ==> cs[m] != '\n',
    ensures
        spec_nl_pos(cs, 0) == p,
{
    lemma_nl_pos_props(cs, 0);
    let q = spec_nl_pos(cs, 0);
    if q < p {
        assert(cs[q] == '\n');
    } else if q > p {
        assert(cs[p] != '\n');
    }
}

/// No escaped character introduces a line feed.
proof fn lemma_escape_char_no_newline(c: char, k: int)
    requires
        0 <= k < crate::json::spec_escape_char(c).len(),
    ensures
        crate::json::spec_escape_char(c)[k] != '\n',
{
}

proof fn lemma_escape_no_newline(t: Seq<char>, k: int)
    requires
        0 <= k < crate::json::spec_escape(t).len(),
    ensures
        crate::json::spec_escape(t)[k] != '\n',
    decreases t.len(),
{
    if t.len() > 0 {
        let head = crate::json::spec_escape(t.drop_last());
        if k < head.len() {
            lemma_escape_no_newline(t.drop_last(), k);
        } else {
            lemma_escape_char_no_newline(t.last(), k - head.len());
        }
    }
}

/// A rendered context line holds no line feed.
proof fn lemma_line_text_no_newline(l: ContextLineView, k: int)
    requires
        0 <= k < spec_context_line_text(l).len(),
    ensures
        spec_context_line_text(l)[k] != '\n',
{
    reveal_strlit("{\"sender\":\"");
    reveal_strlit("\",\"content\":\"");
    reveal_strlit("\",\"time\":\"");
    reveal_strlit("\"}");
    proof_ctx_literal_facts();
    lemma_ctx_index(l, k);
    let es = crate::json::spec_escape(l.sender);
    let ec = crate::json::spec_escape(l.content);
    let et = crate::json::spec_escape(l.time);
    let o1 = ctx_head().len() as int;
    let o2 = o1 + es.len();
    let o3 = o2 + ctx_mid1().len();
    let o4 = o3 + ec.len();
    let o5 = o4 + ctx_mid2().len();
    let o6 = o5 + et.len();
    if k < o1 {
        assert(ctx_head()[k] != '\n');
    } else if k < o2 {
        lemma_escape_no_newline(l.sender, k - o1);
    } else if k < o3 {
        assert(ctx_mid1()[k - o2] != '\n');
    } else if k < o4 {
        lemma_escape_no_newline(l.content, k - o3);
    } else if k < o5 {
        assert(ctx_mid2()[k - o4] != '\n');
    } else if k < o6 {
        lemma_escape_no_newline(l.time, k - o5);
    } else {
        assert(ctx_tail()[k - o6] != '\n');
    }
}

/// Writing the context file and reading it back line by line
/// reproduces the message sequence exactly.
#[verifier::rlimit(60)]
pub proof fn lemma_context_jsonl_round_trip(lines: Seq<ContextLineView>)
    ensures
        spec_parse_jsonl(spec_render_jsonl(lines)) == Some(lines),
    decreases lines.len(),
{
    if lines.len() == 0 {
        assert(spec_render_jsonl(lines) =~= Seq::<char>::empty());
    } else {
        let first = lines.first();
        let rest = lines.drop_first();
        let line_text = spec_context_line_text(first);
        let rest_text = spec_render_jsonl(rest);
        let cs = spec_render_jsonl(lines);
        assert(cs == line_text + seq!['\n'] + rest_text);
        let p = line_text.len() as int;
        assert(cs.len() == p + 1 + rest_text.len());
        assert(cs[p] == '\n') by {
            assert((line_text + seq!['\n'])[p] == '\n');
        }
        assert forall|m: int| 0 <= m < p implies cs[m] != '\n' by {
            assert(cs[m] == line_text[m]);
            lemma_line_text_no_newline(first, m);
        }
        lemma_nl_pos_exact(cs, p);
        assert(cs.subrange(0, p) =~= line_text);
        lemma_context_line_round_trip(first);
        assert(spec_parse_context_line(cs.subrange(0, p)) == Some(first));
        assert(cs.subrange(p + 1, cs.len() as int) =~= rest_text);
        lemma_context_jsonl_round_trip(rest);
        assert(spec_parse_jsonl(cs) == Some(seq![first] + rest));
        assert(seq![first] + rest =~= lines);
    }
}

/// Render a whole context file.
pub fn render_context_jsonl(lines: &Vec<ContextLine>) -> (r: Vec<char>)
    ensures
        r@ == spec_render_jsonl(lines@.map_values(|l: ContextLine| l@)),
{
    let ghost views = lines@.map_values(|l: ContextLine| l@);
    let mut rendered: Vec<char> = Vec::new();
    let mut j: usize = 0;
    proof {
        assert(views.skip(0) =~= views);
    }
    let ghost target = spec_render_jsonl(views);
    while j < lines.len()
        invariant
            j <= lines@.len(),
            views == lines@.map_values(|l: ContextLine| l@),
            target == spec_render_jsonl(views),
            target =~= rendered@ + spec_render_jsonl(views.skip(j as int)),
        decreases lines@.len() - j,
    {
        proof {
            assert(views.skip(j as int).first() == views[j as int]);
            assert(views.skip(j as int).drop_first() =~= views.skip(j as int + 1));
            assert(views[j as int] == lines@[j as int]@);
        }
        let line_text: Vec<char> = context_line_to_text(&lines[j]);
        append_chars(&mut rendered, &line_text);
        rendered.push('\n');
        proof {
            assert(target =~= rendered@ + spec_render_jsonl(views.skip(j as int + 1)));
        }
        j += 1;
    }
    proof {
        assert(views.skip(lines@.len() as int) =~= Seq::<ContextLineView>::empty());
        assert(rendered@ =~= target);
    }
    rendered
}

fn find_newline(cs: &Vec<char>, start: usize) -> (r: usize)
    requires
        start <= cs@.len(),
    ensures
        start <= r <= cs@.len(),
        r < cs@.len() ==> cs@[r as int] == '\n',
        forall|m: int| start <= m < r ==> cs@[m] != '\n',
{
    let n: usize = cs.len();
    let mut p: usize = start;
    while p < n
        invariant
            start <= p <= n,
            n == cs@.len(),
            forall|m: int| start <= m < p ==> cs@[m] != '\n',
        decreases n - p,
    {
        if cs[p] == '\n' {
            return p;
        }
        p += 1;
    }
    p
}

/// Read a whole context file, line by line.
pub fn parse_context_jsonl(cs: &Vec<char>) -> (r: Option<Vec<ContextLine>>)
    ensures
        match r {
            Some(lines) => spec_parse_jsonl(cs@) == Some(
                lines@.map_values(|l: ContextLine| l@),
            ),
            None => spec_parse_jsonl(cs@) is None,
        },
{
    let n: usize = cs.len();
    let mut out: Vec<ContextLine> = Vec::new();
    let mut start: usize = 0;
    let ghost target = spec_parse_jsonl(cs@);
    proof {
        assert(cs@.subrange(0, n as int) =~= cs@);
        assert(out@.map_values(|l: ContextLine| l@) =~= Seq::<ContextLineView>::empty());
        assert(Seq::<ContextLineView>::empty() + spec_parse_jsonl(cs@)->Some_0
            =~= spec_parse_jsonl(cs@)->Some_0);
    }
    while start < n
        invariant
            start <= n,
            n == cs@.len(),
            target == spec_parse_jsonl(cs@),
            match spec_parse_jsonl(cs@.subrange(start as int, n as int)) {
                Some(rest) => target == Some(out@.map_values(|l: ContextLine| l@) + rest),
                None => target is None,
            },
        decreases n - start,
    {
        let ghost tail = cs@.subrange(start as int, n as int);
        let p: usize = find_newline(cs, start);
        proof {
            if p == n {
                lemma_nl_pos_props(tail, 0);
                if spec_nl_pos(tail, 0) < tail.len() {
                    assert(tail[spec_nl_pos(tail, 0)] == cs@[start + spec_nl_pos(tail, 0)]);
                }
            } else {
                assert(tail[p - start] == cs@[p as int]);
                assert forall|m: int| 0 <= m < p - start implies tail[m] != '\n' by {
                    assert(tail[m] == cs@[start + m]);
                }
                lemma_nl_pos_exact(tail, p - start);
            }
        }
        if p == n {
            return None;
        }
        let line_chars: Vec<char> = crate::text::copy_range(cs, start, p);
        proof {
            assert(line_chars@ =~= tail.subrange(0, p - start));
        }
        let line: ContextLine = match parse_context_line(&line_chars) {
            Some(l) => l,
            None => {
                return None;
            },
        };
        let ghost old_views = out@.map_values(|l: ContextLine| l@);
        let ghost line_view = line@;
        out.push(line);
        proof {
            assert(tail.subrange(p - start + 1, tail.len() as int) =~= cs@.subrange(
                p + 1,
                n as int,
            ));
            assert(out@.map_values(|l: ContextLine| l@) =~= old_views.push(line_view));
            match spec_parse_jsonl(cs@.subrange(p + 1, n as int)) {
                Some(rest) => {
                    assert(old_views + (seq![line_view] + rest) =~= old_views.push(line_view)
                        + rest);
                },
                None => {},
            }
        }
        start = p + 1;
    }
    proof {
        assert(cs@.subrange(n as int, n as int) =~= Seq::<char>::empty());
        assert(out@.map_values(|l: ContextLine| l@) + Seq::<ContextLineView>::empty()
            =~= out@.map_values(|l: ContextLine| l@));
    }
    Some(out)
}

} // verus!

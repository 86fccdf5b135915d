//! Choosing agents for background summarization.
//!
//! Candidates are ordered by how disturbable they are: idle agents first,
//! running agents last; when every member is running, summarization is
//! skipped so the live chat is never blocked.

use vstd::prelude::*;

use crate::context::{message_views, SimplifiedMessage, SimplifiedMessageView};
use crate::model::{ChatSessionAgent, ChatSessionAgentState, ChatSessionAgentView};
use crate::tokens::{
    estimate_token_count, message_token_count, sat_add_u32, spec_message_tokens, spec_total_tokens,
};

verus! {

/// Token budget for the summarization prompt input.
pub const SUMMARY_INPUT_TOKEN_LIMIT: u32 = 60000;

/// Rank of a member state when picking a summarizer: idle first, then
/// waiting for approval, then dead, running last.
pub open spec fn spec_summary_agent_priority(state: ChatSessionAgentState) -> u8 {
    match state {
        ChatSessionAgentState::Idle => 0,
        ChatSessionAgentState::WaitingApproval => 1,
        ChatSessionAgentState::Dead => 2,
        ChatSessionAgentState::Running => 3,
    }
}

/// Rank of a member state when picking a summarizer.
pub fn summary_agent_priority(state: ChatSessionAgentState) -> (r: u8)
    ensures
        r == spec_summary_agent_priority(state),
{
    match state {
        ChatSessionAgentState::Idle => 0,
        ChatSessionAgentState::WaitingApproval => 1,
        ChatSessionAgentState::Dead => 2,
        ChatSessionAgentState::Running => 3,
    }
}

/// Views of a vector of session agents.
pub open spec fn session_agent_views(v: Seq<ChatSessionAgent>) -> Seq<ChatSessionAgentView> {
    v.map_values(|a: ChatSessionAgent| a@)
}

/// Whether every member of a non-empty session is currently running.
pub open spec fn spec_all_agents_running(agents: Seq<ChatSessionAgentView>) -> bool {
    agents.len() > 0 && forall|k: int|
        0 <= k < agents.len() ==> agents[k].state == ChatSessionAgentState::Running
}

/// True exactly when the session has members and all of them are running.
pub fn all_agents_running(session_agents: &Vec<ChatSessionAgent>) -> (r: bool)
    ensures
        r == spec_all_agents_running(session_agent_views(session_agents@)),
{
    if session_agents.len() == 0 {
        return false;
    }
    let mut i: usize = 0;
    while i < session_agents.len()
        invariant
            i <= session_agents@.len(),
            forall|k: int|
                0 <= k < i ==> session_agent_views(session_agents@)[k].state
                    == ChatSessionAgentState::Running,
        decreases session_agents@.len() - i,
    {
        if !matches!(session_agents[i].state, ChatSessionAgentState::Running) {
            assert(session_agent_views(session_agents@)[i as int].state != ChatSessionAgentState::Running);
            return false;
        }
        i += 1;
    }
    true
}

/// What to do before summarizing when choosing a candidate agent.
#[derive(Clone, Copy, Debug, PartialEq, Eq, Structural)]
pub enum SummarizerWaitDecision {
    /// Some member is free: proceed with the list as it stands.
    Proceed,
    /// The only member is running its own summarization trigger: skip
    /// waiting rather than deadlock on it.
    SkipSingleRunning,
    /// Every member of a larger session is running: refresh the list
    /// once and fall back quickly rather than stall the live chat.
    RefreshWithoutWaiting,
}

/// Decide how summarization treats a busy session: never block the
/// live chat waiting for an idle member.
pub fn summarizer_wait_decision(session_agents: &Vec<ChatSessionAgent>) -> (r:
    SummarizerWaitDecision)
    ensures
        ({
            let agents = session_agent_views(session_agents@);
            if !spec_all_agents_running(agents) {
                r == SummarizerWaitDecision::Proceed
            } else if agents.len() == 1 {
                r == SummarizerWaitDecision::SkipSingleRunning
            } else {
                r == SummarizerWaitDecision::RefreshWithoutWaiting
            }
        }),
{
    if !all_agents_running(session_agents) {
        SummarizerWaitDecision::Proceed
    } else if session_agents.len() == 1 {
        SummarizerWaitDecision::SkipSingleRunning
    } else {
        SummarizerWaitDecision::RefreshWithoutWaiting
    }
}

/// The members with exactly this priority rank, original order kept.
pub open spec fn spec_with_priority(agents: Seq<ChatSessionAgentView>, rank: u8) -> Seq<
    ChatSessionAgentView,
>
    decreases agents.len(),
{
    if agents.len() == 0 {
        Seq::empty()
    } else {
        let rest = spec_with_priority(agents.drop_last(), rank);
        if spec_summary_agent_priority(agents.last().state) == rank {
            rest.push(agents.last())
        } else {
            rest
        }
    }
}

/// The stable ordering of members by summarization priority: idle
/// members first, then waiting, then dead, then running, each group in
/// its original order.
pub open spec fn spec_prioritized(agents: Seq<ChatSessionAgentView>) -> Seq<ChatSessionAgentView> {
    spec_with_priority(agents, 0) + spec_with_priority(agents, 1) + spec_with_priority(agents, 2)
        + spec_with_priority(agents, 3)
}

fn push_with_priority(
    out: &mut Vec<ChatSessionAgent>,
    agents: &Vec<ChatSessionAgent>,
    rank: u8,
)
    requires
        rank <= 3,
    ensures
        session_agent_views(final(out)@) == session_agent_views(old(out)@) + spec_with_priority(
            session_agent_views(agents@),
            rank,
        ),
{
    let ghost all = session_agent_views(agents@);
    let ghost base = session_agent_views(out@);
    let mut i: usize = 0;
    assert(session_agent_views(out@) =~= base + spec_with_priority(all.subrange(0, 0), rank));
    while i < agents.len()
        invariant
            i <= agents@.len(),
            all == session_agent_views(agents@),
            session_agent_views(out@) == base + spec_with_priority(
                all.subrange(0, i as int),
                rank,
            ),
        decreases agents@.len() - i,
    {
        let ghost prefix = all.subrange(0, i as int);
        let ghost next_prefix = all.subrange(0, i as int + 1);
        proof {
            assert(next_prefix.drop_last() =~= prefix);
            assert(next_prefix.last() == all[i as int]);
            assert(all[i as int] == agents@[i as int]@);
        }
        if summary_agent_priority(agents[i].state) == rank {
            out.push(agents[i].clone());
            proof {
                assert(spec_with_priority(next_prefix, rank) == spec_with_priority(
                    prefix,
                    rank,
                ).push(all[i as int]));
                assert(session_agent_views(out@) =~= (base + spec_with_priority(prefix, rank))
                    .push(all[i as int]));
                assert((base + spec_with_priority(prefix, rank)).push(all[i as int]) =~= base
                    + spec_with_priority(prefix, rank).push(all[i as int]));
            }
        } else {
            proof {
                assert(spec_with_priority(next_prefix, rank) == spec_with_priority(prefix, rank));
                assert(session_agent_views(out@) =~= base + spec_with_priority(next_prefix, rank));
            }
        }
        i += 1;
    }
    assert(all.subrange(0, agents@.len() as int) =~= all);
}

/// Order the session's members for summarization: a stable sort by
/// state priority, idle first, running last.
pub fn prioritize_summary_agents(session_agents: &Vec<ChatSessionAgent>) -> (r: Vec<
    ChatSessionAgent,
>)
    ensures
        session_agent_views(r@) == spec_prioritized(session_agent_views(session_agents@)),
{
    let mut out: Vec<ChatSessionAgent> = Vec::new();
    assert(session_agent_views(out@) =~= Seq::<ChatSessionAgentView>::empty());
    push_with_priority(&mut out, session_agents, 0);
    push_with_priority(&mut out, session_agents, 1);
    push_with_priority(&mut out, session_agents, 2);
    push_with_priority(&mut out, session_agents, 3);
    proof {
        let all = session_agent_views(session_agents@);
        assert(session_agent_views(out@) =~= spec_prioritized(all));
    }
    out
}

/// Padded per-message estimate: every message counts at least one token.
pub open spec fn spec_padded_tokens(m: SimplifiedMessageView) -> u32 {
    if spec_message_tokens(m) == 0 {
        1u32
    } else {
        spec_message_tokens(m)
    }
}

/// Result of scanning messages from newest to oldest under a budget:
/// the index where the kept suffix starts, and the tokens taken.
pub open spec fn spec_limit_scan(
    ms: Seq<SimplifiedMessageView>,
    limit: u32,
    j: int,
    acc: u32,
    taken: int,
) -> (int, u32)
    decreases j + 1,
{
    if j < 0 {
        (0, acc)
    } else {
        let mt = spec_padded_tokens(ms[j]);
        if taken > 0 && sat_add_u32(acc, mt) > limit {
            (j + 1, acc)
        } else if sat_add_u32(acc, mt) >= limit {
            (j, sat_add_u32(acc, mt))
        } else {
            spec_limit_scan(ms, limit, j - 1, sat_add_u32(acc, mt), taken + 1)
        }
    }
}

/// Start index of the newest-message suffix kept for summarization.
pub open spec fn spec_summary_cut(ms: Seq<SimplifiedMessageView>, limit: u32) -> (int, u32) {
    spec_limit_scan(ms, limit, ms.len() - 1, 0, 0)
}

proof fn lemma_limit_scan_bounds(
    ms: Seq<SimplifiedMessageView>,
    limit: u32,
    j: int,
    acc: u32,
    taken: int,
)
    requires
        -1 <= j < ms.len(),
    ensures
        0 <= spec_limit_scan(ms, limit, j, acc, taken).0 <= j + 1,
    decreases j + 1,
{
    if j >= 0 {
        let mt = spec_padded_tokens(ms[j]);
        if taken > 0 && sat_add_u32(acc, mt) > limit {
        } else if sat_add_u32(acc, mt) >= limit {
        } else {
            lemma_limit_scan_bounds(ms, limit, j - 1, sat_add_u32(acc, mt), taken + 1);
        }
    }
}

/// Keep the most recent messages of the summarization input under the
/// token budget. Returns the kept suffix, the estimate of the whole
/// input, and the tokens taken by the suffix; input that already fits
/// (or is empty) is returned whole.
pub fn limit_summary_input_messages(
    messages_to_compress: &Vec<SimplifiedMessage>,
    token_limit: u32,
) -> (r: (Vec<SimplifiedMessage>, u32, u32))
    ensures
        r.1 == spec_total_tokens(message_views(messages_to_compress@)),
        messages_to_compress@.len() == 0 || r.1 <= token_limit ==> {
            &&& message_views(r.0@) == message_views(messages_to_compress@)
            &&& r.2 == r.1
        },
        messages_to_compress@.len() > 0 && r.1 > token_limit ==> {
            let ms = message_views(messages_to_compress@);
            let cut = spec_summary_cut(ms, token_limit);
            &&& message_views(r.0@) == ms.subrange(cut.0, ms.len() as int)
            &&& r.2 == cut.1
        },
{
    let ghost ms = message_views(messages_to_compress@);
    let total_tokens: u32 = estimate_token_count(messages_to_compress);
    if messages_to_compress.len() == 0 || total_tokens <= token_limit {
        let copy = crate::context::clone_messages(messages_to_compress);
        return (copy, total_tokens, total_tokens);
    }

    let n: usize = messages_to_compress.len();
    let mut selected_rev: Vec<SimplifiedMessage> = Vec::new();
    let mut selected_tokens: u32 = 0;
    let mut taken: usize = 0;
    let mut j: usize = n - 1;
    let ghost goal = spec_summary_cut(ms, token_limit);
    let cut: usize;
    let final_tokens: u32;
    assert(message_views(selected_rev@) =~= ms.subrange(j + 1, ms.len() as int).reverse());
    loop
        invariant_except_break
            j < ms.len(),
            n == ms.len(),
            ms == message_views(messages_to_compress@),
            ms.len() == messages_to_compress@.len(),
            taken == selected_rev@.len(),
            taken == ms.len() - 1 - j,
            goal == spec_limit_scan(ms, token_limit, j as int, selected_tokens, taken as int),
            message_views(selected_rev@) =~= ms.subrange(j + 1, ms.len() as int).reverse(),
        ensures
            ms == message_views(messages_to_compress@),
            ms.len() == messages_to_compress@.len(),
            cut <= ms.len(),
            goal.0 == cut && goal.1 == final_tokens,
            message_views(selected_rev@) =~= ms.subrange(cut as int, ms.len() as int).reverse(),
        decreases j,
    {
        let mt_raw: u32 = message_token_count(&messages_to_compress[j]);
        let mt: u32 = if mt_raw == 0 {
            1
        } else {
            mt_raw
        };
        assert(mt == spec_padded_tokens(ms[j as int]));
        let added: u32 = if mt > u32::MAX - selected_tokens {
            u32::MAX
        } else {
            selected_tokens + mt
        };
        assert(added == sat_add_u32(selected_tokens, mt));
        if taken > 0 && added > token_limit {
            cut = j + 1;
            final_tokens = selected_tokens;
            break;
        }
        selected_rev.push(messages_to_compress[j].clone());
        proof {
            let old_views = ms.subrange(j + 1, ms.len() as int).reverse();
            assert(message_views(selected_rev@) =~= old_views.push(ms[j as int]));
            assert(ms.subrange(j as int, ms.len() as int).reverse() =~= old_views.push(
                ms[j as int],
            ));
        }
        taken += 1;
        selected_tokens = added;
        if selected_tokens >= token_limit {
            cut = j;
            final_tokens = selected_tokens;
            break;
        }
        if j == 0 {
            cut = 0;
            final_tokens = selected_tokens;
            assert(goal == spec_limit_scan(
                ms,
                token_limit,
                -1,
                selected_tokens,
                taken as int,
            ));
            break;
        }
        j -= 1;
    }

    let mut out: Vec<SimplifiedMessage> = Vec::new();
    let mut k: usize = selected_rev.len();
    while k > 0
        invariant
            k <= selected_rev@.len(),
            out@.len() == selected_rev@.len() - k,
            message_views(out@) =~= message_views(selected_rev@).reverse().take(
                selected_rev@.len() - k,
            ),
        decreases k,
    {
        k -= 1;
        out.push(selected_rev[k].clone());
        assert(message_views(out@) =~= message_views(selected_rev@).reverse().take(
            selected_rev@.len() - k,
        ));
    }
    proof {
        assert(message_views(out@) =~= message_views(selected_rev@).reverse());
        assert(message_views(out@) =~= ms.subrange(cut as int, ms.len() as int));
    }
    (out, total_tokens, final_tokens)
}

/// Exact text of the summarization prompt over the given messages.
pub open spec fn spec_summarization_prompt(ms: Seq<SimplifiedMessageView>) -> Seq<char> {
    spec_summarization_lines(ms, 0, spec_summarization_header())
}

pub open spec fn spec_summarization_header() -> Seq<char> {
    "Summarize the following chat history while preserving key tasks, decisions, constraints, and references. Keep the summary concise (under 500 words).\nReturn only the summary body. Do not ask follow-up questions. Do not run any tools or shell commands.\n\nMessages:\n"@
}

pub open spec fn spec_summarization_lines(
    ms: Seq<SimplifiedMessageView>,
    i: int,
    acc: Seq<char>,
) -> Seq<char>
    decreases ms.len() - i,
{
    if i < 0 || i >= ms.len() {
        acc
    } else {
        spec_summarization_lines(ms, i + 1, acc + ms[i].sender + ": "@ + ms[i].content + "\n"@)
    }
}

/// Build the prompt handed to an agent asked to summarize history:
/// fixed instructions, then one `sender: content` line per message.
pub fn build_summarization_prompt(messages_to_compress: &Vec<SimplifiedMessage>) -> (r: String)
    ensures
        r@ == spec_summarization_prompt(message_views(messages_to_compress@)),
{
    let ghost ms = message_views(messages_to_compress@);
    let mut prompt: String =
        "Summarize the following chat history while preserving key tasks, decisions, constraints, and references. Keep the summary concise (under 500 words).\nReturn only the summary body. Do not ask follow-up questions. Do not run any tools or shell commands.\n\nMessages:\n".to_owned();
    let mut i: usize = 0;
    while i < messages_to_compress.len()
        invariant
            i <= ms.len(),
            ms == message_views(messages_to_compress@),
            spec_summarization_prompt(ms) == spec_summarization_lines(ms, i as int, prompt@),
        decreases ms.len() - i,
    {
        prompt.append(messages_to_compress[i].sender.as_str());
        prompt.append(": ");
        prompt.append(messages_to_compress[i].content.as_str());
        prompt.append("\n");
        i += 1;
    }
    prompt
}

} // verus!

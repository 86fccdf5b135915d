//! Per-session-agent scheduling: mention resolution, the four-state
//! machine, the FIFO queue for messages arriving while a run is live,
//! and the chain-depth guard.
//!
//! The functions here are the decision core: the surrounding runtime
//! performs the store writes, spawns the subprocesses, and feeds run
//! outcomes back in.

use vstd::prelude::*;

use crate::model::{
    mention_status_advances, mention_status_rank, ChatAgent, ChatAgentView, ChatMessage,
    ChatMessageView, ChatSenderType, ChatSessionAgent, ChatSessionAgentState, ChatSessionAgentView,
    MentionStatus, MessageMeta,
};
use crate::text::{ascii_ci_eq, ascii_lowercase_of, str_eq};
use crate::MAX_AGENT_CHAIN_DEPTH;

verus! {

/// The handle that always refers to the human user; agents mentioning it
/// never trigger a run.
pub open spec fn spec_reserved_user_handle() -> Seq<char> {
    "you"@
}

/// Whether a mention in an agent message is the reserved user handle.
pub open spec fn spec_is_reserved(mention: Seq<char>) -> bool {
    ascii_lowercase_of(mention) == ascii_lowercase_of(spec_reserved_user_handle())
}

// ------------------------------------------------------------------
// State machine
// ------------------------------------------------------------------

/// The transitions the state machine of a session agent allows: runs start
/// from Idle or Dead, finish to Idle or Dead, an approval decision leaves
/// WaitingApproval, and a manual stop forces Dead from anywhere.
pub open spec fn spec_transition_allowed(
    from: ChatSessionAgentState,
    to: ChatSessionAgentState,
) -> bool {
    ||| (from == ChatSessionAgentState::Idle && to == ChatSessionAgentState::Running)
    ||| (from == ChatSessionAgentState::Dead && to == ChatSessionAgentState::Running)
    ||| (from == ChatSessionAgentState::Running && to == ChatSessionAgentState::Idle)
    ||| (from == ChatSessionAgentState::WaitingApproval && to == ChatSessionAgentState::Idle)
    ||| to == ChatSessionAgentState::Dead
}

/// Move a session agent into Running to start a run. Only an idle or
/// dead member may start; a dead member starts fresh, so its stored
/// executor continuation handles are cleared.
pub fn begin_run(sa: &ChatSessionAgent) -> (r: ChatSessionAgent)
    requires
        sa.state == ChatSessionAgentState::Idle || sa.state == ChatSessionAgentState::Dead,
    ensures
        r.state == ChatSessionAgentState::Running,
        spec_transition_allowed(sa.state, r.state),
        r@.id == sa@.id,
        r@.session_id == sa@.session_id,
        r@.agent_id == sa@.agent_id,
        r@.workspace_path == sa@.workspace_path,
        sa.state == ChatSessionAgentState::Dead ==> r@.agent_session_id is None
            && r@.agent_message_id is None,
        sa.state == ChatSessionAgentState::Idle ==> r@.agent_session_id == sa@.agent_session_id
            && r@.agent_message_id == sa@.agent_message_id,
{
    let mut next = sa.clone();
    next.state = ChatSessionAgentState::Running;
    if matches!(sa.state, ChatSessionAgentState::Dead) {
        next.agent_session_id = None;
        next.agent_message_id = None;
    }
    next
}

/// Move a running session agent to its final state: Idle on success,
/// Dead on failure. Failure clears the stored continuation handles, so
/// the next run starts fresh.
pub fn finish_run(sa: &ChatSessionAgent, success: bool) -> (r: ChatSessionAgent)
    requires
        sa.state == ChatSessionAgentState::Running,
    ensures
        success ==> r.state == ChatSessionAgentState::Idle,
        !success ==> r.state == ChatSessionAgentState::Dead,
        spec_transition_allowed(sa.state, r.state),
        r@.id == sa@.id,
        r@.session_id == sa@.session_id,
        r@.agent_id == sa@.agent_id,
        r@.workspace_path == sa@.workspace_path,
        !success ==> r@.agent_session_id is None && r@.agent_message_id is None,
        success ==> r@.agent_session_id == sa@.agent_session_id && r@.agent_message_id
            == sa@.agent_message_id,
{
    let mut next = sa.clone();
    if success {
        next.state = ChatSessionAgentState::Idle;
    } else {
        next.state = ChatSessionAgentState::Dead;
        next.agent_session_id = None;
        next.agent_message_id = None;
    }
    next
}

/// Force a session agent Dead on manual cancellation, clearing the
/// stored continuation handles.
pub fn force_dead(sa: &ChatSessionAgent) -> (r: ChatSessionAgent)
    ensures
        r.state == ChatSessionAgentState::Dead,
        spec_transition_allowed(sa.state, r.state),
        r@.id == sa@.id,
        r@.session_id == sa@.session_id,
        r@.agent_id == sa@.agent_id,
        r@.workspace_path == sa@.workspace_path,
        r@.agent_session_id is None,
        r@.agent_message_id is None,
{
    let mut next = sa.clone();
    next.state = ChatSessionAgentState::Dead;
    next.agent_session_id = None;
    next.agent_message_id = None;
    next
}

/// Every state change the scheduler makes respects the transition
/// graph: a member leaves Running only to Idle or Dead, enters Running
/// only from Idle or Dead, and leaves WaitingApproval only by an
/// external decision.
pub proof fn lemma_state_monotonicity(from: ChatSessionAgentState, to: ChatSessionAgentState)
    requires
        spec_transition_allowed(from, to),
    ensures
        from == ChatSessionAgentState::Running ==> (to == ChatSessionAgentState::Idle || to
            == ChatSessionAgentState::Dead),
        to == ChatSessionAgentState::Running ==> (from == ChatSessionAgentState::Idle || from
            == ChatSessionAgentState::Dead),
        to == ChatSessionAgentState::WaitingApproval ==> false,
{
}

// ------------------------------------------------------------------
// Mention resolution
// ------------------------------------------------------------------

/// The first catalog agent with this id, if any.
pub open spec fn spec_agent_for(agents: Seq<ChatAgentView>, id: u128) -> Option<ChatAgentView>
    decreases agents.len(),
{
    if agents.len() == 0 {
        None
    } else if agents[0].id == id {
        Some(agents[0])
    } else {
        spec_agent_for(agents.drop_first(), id)
    }
}

/// Case-insensitive (ASCII) name equality.
pub open spec fn spec_name_ci_eq(a: Seq<char>, b: Seq<char>) -> bool {
    ascii_lowercase_of(a) == ascii_lowercase_of(b)
}

/// Resolution scan from member `i` on, with the unique case-insensitive
/// candidate found so far. An exact name match wins immediately; a
/// second case-insensitive candidate makes the mention ambiguous and
/// resolves to nothing; members whose catalog agent is gone are skipped.
pub open spec fn spec_resolve_from(
    sas: Seq<ChatSessionAgentView>,
    agents: Seq<ChatAgentView>,
    mention: Seq<char>,
    i: int,
    ci: Option<(ChatSessionAgentView, ChatAgentView)>,
) -> Option<(ChatSessionAgentView, ChatAgentView)>
    decreases sas.len() - i,
{
    if i < 0 || i >= sas.len() {
        ci
    } else {
        match spec_agent_for(agents, sas[i].agent_id) {
            None => spec_resolve_from(sas, agents, mention, i + 1, ci),
            Some(ag) => if ag.name == mention {
                Some((sas[i], ag))
            } else if spec_name_ci_eq(ag.name, mention) {
                if ci is Some {
                    None
                } else {
                    spec_resolve_from(sas, agents, mention, i + 1, Some((sas[i], ag)))
                }
            } else {
                spec_resolve_from(sas, agents, mention, i + 1, ci)
            },
        }
    }
}

/// The member an exact or uniquely case-insensitive mention resolves to.
pub open spec fn spec_resolve(
    sas: Seq<ChatSessionAgentView>,
    agents: Seq<ChatAgentView>,
    mention: Seq<char>,
) -> Option<(ChatSessionAgentView, ChatAgentView)> {
    spec_resolve_from(sas, agents, mention, 0, None)
}

/// Views of the session-agent list.
pub open spec fn sa_views(v: Seq<ChatSessionAgent>) -> Seq<ChatSessionAgentView> {
    v.map_values(|a: ChatSessionAgent| a@)
}

/// Views of the agent catalog.
pub open spec fn ag_views(v: Seq<ChatAgent>) -> Seq<ChatAgentView> {
    v.map_values(|a: ChatAgent| a@)
}

pub(crate) fn agent_for(agents: &Vec<ChatAgent>, id: u128) -> (r: Option<ChatAgent>)
    ensures
        match r {
            Some(ag) => spec_agent_for(ag_views(agents@), id) == Some(ag@),
            None => spec_agent_for(ag_views(agents@), id) is None,
        },
{
    let mut i: usize = 0;
    assert(ag_views(agents@).subrange(0, agents@.len() as int) =~= ag_views(agents@));
    while i < agents.len()
        invariant
            i <= agents@.len(),
            spec_agent_for(ag_views(agents@), id) == spec_agent_for(
                ag_views(agents@).subrange(i as int, agents@.len() as int),
                id,
            ),
        decreases agents@.len() - i,
    {
        let ghost rest = ag_views(agents@).subrange(i as int, agents@.len() as int);
        assert(rest[0] == ag_views(agents@)[i as int]);
        if agents[i].id == id {
            return Some(agents[i].clone());
        }
        assert(rest.drop_first() =~= ag_views(agents@).subrange(
            i as int + 1,
            agents@.len() as int,
        ));
        i += 1;
    }
    assert(ag_views(agents@).subrange(agents@.len() as int, agents@.len() as int)
        =~= Seq::<ChatAgentView>::empty());
    None
}

/// Resolve a mention against the session's members: the member whose
/// catalog name matches exactly, else the unique member matching
/// case-insensitively; an ambiguous mention resolves to nothing and no
/// run starts.
pub fn resolve_session_agent_for_mention(
    session_agents: &Vec<ChatSessionAgent>,
    agents: &Vec<ChatAgent>,
    mention: &String,
) -> (r: Option<(ChatSessionAgent, ChatAgent)>)
    ensures
        match r {
            Some(p) => spec_resolve(sa_views(session_agents@), ag_views(agents@), mention@)
                == Some((p.0@, p.1@)),
            None => spec_resolve(sa_views(session_agents@), ag_views(agents@), mention@) is None,
        },
{
    let ghost sas = sa_views(session_agents@);
    let ghost ags = ag_views(agents@);
    let mut ci_match: Option<(ChatSessionAgent, ChatAgent)> = None;
    let mut i: usize = 0;
    while i < session_agents.len()
        invariant
            i <= session_agents@.len(),
            sas == sa_views(session_agents@),
            ags == ag_views(agents@),
            spec_resolve(sas, ags, mention@) == spec_resolve_from(
                sas,
                ags,
                mention@,
                i as int,
                match ci_match {
                    Some(p) => Some((p.0@, p.1@)),
                    None => None,
                },
            ),
        decreases session_agents@.len() - i,
    {
        assert(sas[i as int] == session_agents@[i as int]@);
        match agent_for(agents, session_agents[i].agent_id) {
            None => {},
            Some(ag) => {
                if str_eq(ag.name.as_str(), mention.as_str()) {
                    return Some((session_agents[i].clone(), ag));
                }
                if ascii_ci_eq(ag.name.as_str(), mention.as_str()) {
                    if ci_match.is_some() {
                        return None;
                    }
                    ci_match = Some((session_agents[i].clone(), ag));
                }
            },
        }
        i += 1;
    }
    ci_match
}

/// If the first member's name equals the mention exactly, it wins,
/// whatever follows.
pub proof fn lemma_exact_match_wins(
    sas: Seq<ChatSessionAgentView>,
    agents: Seq<ChatAgentView>,
    mention: Seq<char>,
)
    requires
        sas.len() > 0,
        spec_agent_for(agents, sas[0].agent_id) is Some,
        spec_agent_for(agents, sas[0].agent_id)->Some_0.name == mention,
    ensures
        spec_resolve(sas, agents, mention) == Some(
            (sas[0], spec_agent_for(agents, sas[0].agent_id)->Some_0),
        ),
{
}

proof fn lemma_resolve_ci_pair(
    sas: Seq<ChatSessionAgentView>,
    agents: Seq<ChatAgentView>,
    mention: Seq<char>,
    i: int,
    ci: Option<(ChatSessionAgentView, ChatAgentView)>,
    a: int,
    b: int,
)
    requires
        0 <= i <= a < b < sas.len(),
        forall|j: int|
            0 <= j < sas.len() ==> match #[trigger] spec_agent_for(agents, sas[j].agent_id) {
                Some(ag) => ag.name != mention,
                None => false,
            },
        spec_name_ci_eq(spec_agent_for(agents, sas[a].agent_id)->Some_0.name, mention),
        spec_name_ci_eq(spec_agent_for(agents, sas[b].agent_id)->Some_0.name, mention),
    ensures
        spec_resolve_from(sas, agents, mention, i, ci) is None,
    decreases sas.len() - i,
{
    let ag = spec_agent_for(agents, sas[i].agent_id)->Some_0;
    if i < a {
        if spec_name_ci_eq(ag.name, mention) {
            if ci is Some {
            } else {
                lemma_resolve_ci_pair(sas, agents, mention, i + 1, Some((sas[i], ag)), a, b);
            }
        } else {
            lemma_resolve_ci_pair(sas, agents, mention, i + 1, ci, a, b);
        }
    } else {
        // i == a: this member matches case-insensitively
        if ci is Some {
        } else {
            lemma_resolve_second_ci(sas, agents, mention, a + 1, Some((sas[a], ag)), b);
        }
    }
}

proof fn lemma_resolve_second_ci(
    sas: Seq<ChatSessionAgentView>,
    agents: Seq<ChatAgentView>,
    mention: Seq<char>,
    i: int,
    ci: Option<(ChatSessionAgentView, ChatAgentView)>,
    b: int,
)
    requires
        0 <= i <= b < sas.len(),
        ci is Some,
        forall|j: int|
            0 <= j < sas.len() ==> match #[trigger] spec_agent_for(agents, sas[j].agent_id) {
                Some(ag) => ag.name != mention,
                None => false,
            },
        spec_name_ci_eq(spec_agent_for(agents, sas[b].agent_id)->Some_0.name, mention),
    ensures
        spec_resolve_from(sas, agents, mention, i, ci) is None,
    decreases sas.len() - i,
{
    let ag = spec_agent_for(agents, sas[i].agent_id)->Some_0;
    if i < b {
        if spec_name_ci_eq(ag.name, mention) {
        } else {
            lemma_resolve_second_ci(sas, agents, mention, i + 1, ci, b);
        }
    }
}

/// Two distinct members matching the mention case-insensitively, with
/// no exact match anywhere, make the mention ambiguous: it resolves to
/// nothing and no run starts.
pub proof fn lemma_ambiguous_mention_skipped(
    sas: Seq<ChatSessionAgentView>,
    agents: Seq<ChatAgentView>,
    mention: Seq<char>,
    a: int,
    b: int,
)
    requires
        0 <= a < b < sas.len(),
        forall|j: int|
            0 <= j < sas.len() ==> match #[trigger] spec_agent_for(agents, sas[j].agent_id) {
                Some(ag) => ag.name != mention,
                None => false,
            },
        spec_name_ci_eq(spec_agent_for(agents, sas[a].agent_id)->Some_0.name, mention),
        spec_name_ci_eq(spec_agent_for(agents, sas[b].agent_id)->Some_0.name, mention),
    ensures
        spec_resolve(sas, agents, mention) is None,
{
    lemma_resolve_ci_pair(sas, agents, mention, 0, None, a, b);
}

/// Give a resolved member its workspace: a member observed without one
/// gets the derived default `<asset_dir>/chat/session_<sid>/agents/<agent_id>`,
/// which the caller must persist to the row; a set path is never
/// overwritten. The second component says whether a persist is owed.
pub fn ensure_workspace_path(sa: &ChatSessionAgent, asset_dir: &str) -> (r: (
    ChatSessionAgent,
    bool,
))
    ensures
        sa.workspace_path is Some ==> r.0@ == sa@ && r.1 == false,
        sa.workspace_path is None ==> {
            &&& r.1 == true
            &&& r.0@.workspace_path == Some(
                crate::runner::spec_workspace_path(asset_dir@, sa.session_id, sa.agent_id),
            )
            &&& r.0@.id == sa@.id
            &&& r.0@.session_id == sa@.session_id
            &&& r.0@.agent_id == sa@.agent_id
            &&& r.0@.state == sa@.state
            &&& r.0@.agent_session_id == sa@.agent_session_id
            &&& r.0@.agent_message_id == sa@.agent_message_id
        },
{
    if sa.workspace_path.is_some() {
        return (sa.clone(), false);
    }
    let mut next = sa.clone();
    next.workspace_path = Some(
        crate::runner::build_workspace_path(asset_dir, sa.session_id, sa.agent_id),
    );
    (next, true)
}

// ------------------------------------------------------------------
// Mention handling
// ------------------------------------------------------------------

/// One message queued for a busy member.
#[derive(Debug)]
pub struct PendingMessage {
    pub session_id: u128,
    pub agent_id: u128,
    pub agent_name: String,
    pub message: ChatMessage,
}

/// Mathematical value of a queued message.
pub struct PendingMessageView {
    pub session_id: u128,
    pub agent_id: u128,
    pub agent_name: Seq<char>,
    pub message: ChatMessageView,
}

impl View for PendingMessage {
    type V = PendingMessageView;

    open spec fn view(&self) -> PendingMessageView {
        PendingMessageView {
            session_id: self.session_id,
            agent_id: self.agent_id,
            agent_name: self.agent_name@,
            message: self.message@,
        }
    }
}

impl Clone for PendingMessage {
    fn clone(&self) -> (r: Self)
        ensures
            r@ == self@,
    {
        PendingMessage {
            session_id: self.session_id,
            agent_id: self.agent_id,
            agent_name: self.agent_name.clone(),
            message: self.message.clone(),
        }
    }
}

/// Views of a pending queue.
pub open spec fn pending_views(v: Seq<PendingMessage>) -> Seq<PendingMessageView> {
    v.map_values(|p: PendingMessage| p@)
}

/// What the scheduler decided for one mention of one message.
#[derive(Debug)]
pub enum MentionDecision {
    /// `@you` in an agent message: ignored silently.
    SkipReserved,
    /// An agent mentioning itself: ignored silently.
    SkipSelf,
    /// The member is busy: the message joins its FIFO queue with status
    /// Received.
    Queue { pending: PendingMessage },
    /// The member is free: transition it to Running and start a run.
    Start,
}

/// Whether a mention decision may start or queue work.
pub open spec fn spec_mention_decision(
    mention: Seq<char>,
    source: ChatMessageView,
    sa: ChatSessionAgentView,
    agent: ChatAgentView,
) -> int {
    if source.sender_type == ChatSenderType::Agent && spec_is_reserved(mention) {
        0int  // reserved
    } else if source.sender_type == ChatSenderType::Agent && source.sender_id == Some(agent.id) {
        1int  // self-mention
    } else if sa.state == ChatSessionAgentState::Running || sa.state
        == ChatSessionAgentState::WaitingApproval {
        2int  // queue
    } else {
        3int  // start
    }
}

/// Decide what to do with one resolved mention: reserved `@you` and
/// self-mentions in agent messages are ignored silently; a busy member
/// queues the message; a free member starts a run.
pub fn decide_mention(
    session_id: u128,
    mention: &String,
    source: &ChatMessage,
    sa: &ChatSessionAgent,
    agent: &ChatAgent,
) -> (r: MentionDecision)
    ensures
        ({
            let code = spec_mention_decision(mention@, source@, sa@, agent@);
            match r {
                MentionDecision::SkipReserved => code == 0,
                MentionDecision::SkipSelf => code == 1,
                MentionDecision::Queue { pending } => code == 2 && pending@.session_id
                    == session_id && pending@.agent_id == agent@.id && pending@.agent_name
                    == agent@.name && pending@.message == source@,
                MentionDecision::Start => code == 3,
            }
        }),
{
    if matches!(source.sender_type, ChatSenderType::Agent) && ascii_ci_eq(
        mention.as_str(),
        "you",
    ) {
        return MentionDecision::SkipReserved;
    }
    if matches!(source.sender_type, ChatSenderType::Agent) {
        if let Some(sender_id) = source.sender_id {
            if sender_id == agent.id {
                return MentionDecision::SkipSelf;
            }
        }
    }
    if matches!(sa.state, ChatSessionAgentState::Running) || matches!(
        sa.state,
        ChatSessionAgentState::WaitingApproval,
    ) {
        return MentionDecision::Queue {
            pending: PendingMessage {
                session_id,
                agent_id: agent.id,
                agent_name: agent.name.clone(),
                message: source.clone(),
            },
        };
    }
    MentionDecision::Start
}

// ------------------------------------------------------------------
// Chain-depth guard
// ------------------------------------------------------------------

/// Chain depth recorded in a message's metadata.
pub fn extract_chain_depth(meta: &MessageMeta) -> (r: u32)
    ensures
        r == meta@.chain_depth,
{
    meta.chain_depth
}

/// The mentions of a message that may be dispatched: none at all once
/// the chain-depth limit is reached; in agent messages the reserved
/// `@you` handle is dropped.
pub open spec fn spec_dispatchable_mentions(m: ChatMessageView) -> Seq<Seq<char>>
    decreases 1int,
{
    if m.meta.chain_depth >= MAX_AGENT_CHAIN_DEPTH {
        Seq::empty()
    } else {
        spec_dispatch_filter(m.mentions, m.sender_type)
    }
}

pub open spec fn spec_dispatch_filter(
    mentions: Seq<Seq<char>>,
    sender: ChatSenderType,
) -> Seq<Seq<char>>
    decreases mentions.len(),
{
    if mentions.len() == 0 {
        Seq::empty()
    } else {
        let rest = spec_dispatch_filter(mentions.drop_last(), sender);
        if sender == ChatSenderType::Agent && spec_is_reserved(mentions.last()) {
            rest
        } else {
            rest.push(mentions.last())
        }
    }
}

/// The mentions of a message that trigger handling: empty at or beyond
/// the chain-depth limit; `@you` dropped from agent messages.
pub fn mentions_to_dispatch(message: &ChatMessage) -> (r: Vec<String>)
    ensures
        crate::mentions::string_views(r@) == spec_dispatchable_mentions(message@),
{
    if message.meta.chain_depth >= MAX_AGENT_CHAIN_DEPTH {
        let empty: Vec<String> = Vec::new();
        assert(crate::mentions::string_views(empty@) =~= Seq::<Seq<char>>::empty());
        return empty;
    }
    let ghost all = message@.mentions;
    let mut out: Vec<String> = Vec::new();
    let mut i: usize = 0;
    assert(crate::mentions::string_views(out@) =~= spec_dispatch_filter(
        all.subrange(0, 0),
        message@.sender_type,
    ));
    while i < message.mentions.len()
        invariant
            i <= message.mentions@.len(),
            all == message@.mentions,
            all.len() == message.mentions@.len(),
            crate::mentions::string_views(out@) == spec_dispatch_filter(
                all.subrange(0, i as int),
                message@.sender_type,
            ),
        decreases message.mentions@.len() - i,
    {
        let ghost prefix = all.subrange(0, i as int);
        let ghost next_prefix = all.subrange(0, i as int + 1);
        proof {
            assert(next_prefix.drop_last() =~= prefix);
            assert(next_prefix.last() == all[i as int]);
            assert(all[i as int] == message.mentions@[i as int]@);
        }
        let keep: bool = if matches!(message.sender_type, ChatSenderType::Agent) {
            !ascii_ci_eq(message.mentions[i].as_str(), "you")
        } else {
            true
        };
        if keep {
            out.push(message.mentions[i].clone());
            proof {
                assert(crate::mentions::string_views(out@) =~= spec_dispatch_filter(
                    prefix,
                    message@.sender_type,
                ).push(all[i as int]));
            }
        }
        i += 1;
    }
    assert(all.subrange(0, all.len() as int) =~= all);
    out
}

/// Starting from a user message at depth zero, each agent reply deepens
/// the chain by exactly one, and a run starts only below the limit: a
/// chain of triggered runs never exceeds `MAX_AGENT_CHAIN_DEPTH`.
pub proof fn lemma_chain_bound(depths: Seq<u32>)
    requires
        depths.len() > 0,
        depths[0] == 0,
        forall|i: int|
            0 <= i < depths.len() - 1 ==> (#[trigger] depths[i]) < MAX_AGENT_CHAIN_DEPTH,
        forall|i: int|
            0 <= i < depths.len() - 1 ==> depths[i + 1] == (#[trigger] depths[i]) + 1,
    ensures
        depths.len() <= MAX_AGENT_CHAIN_DEPTH + 1,
{
    if depths.len() > MAX_AGENT_CHAIN_DEPTH + 1 {
        lemma_chain_depths_linear(depths, MAX_AGENT_CHAIN_DEPTH as int);
        assert(depths[MAX_AGENT_CHAIN_DEPTH as int] == MAX_AGENT_CHAIN_DEPTH);
        assert(depths[MAX_AGENT_CHAIN_DEPTH as int] < MAX_AGENT_CHAIN_DEPTH);
    }
}

proof fn lemma_chain_depths_linear(depths: Seq<u32>, i: int)
    requires
        0 <= i < depths.len(),
        depths.len() > 0,
        depths[0] == 0,
        forall|j: int|
            0 <= j < depths.len() - 1 ==> depths[j + 1] == (#[trigger] depths[j]) + 1,
    ensures
        depths[i] == i,
    decreases i,
{
    if i > 0 {
        lemma_chain_depths_linear(depths, i - 1);
        assert(depths[(i - 1) + 1] == depths[i - 1] + 1);
    }
}

// ------------------------------------------------------------------
// The FIFO queue
// ------------------------------------------------------------------

/// Append an arriving message to a busy member's queue.
pub fn enqueue_pending(queue: &mut Vec<PendingMessage>, pending: PendingMessage)
    ensures
        pending_views(final(queue)@) == pending_views(old(queue)@).push(pending@),
{
    queue.push(pending);
    assert(pending_views(queue@) =~= pending_views(old(queue)@).push(queue@.last()@));
}

/// Take the next queued message, oldest first.
pub fn pop_next_pending(queue: &mut Vec<PendingMessage>) -> (r: Option<PendingMessage>)
    ensures
        old(queue)@.len() == 0 ==> r is None && final(queue)@ == old(queue)@,
        old(queue)@.len() > 0 ==> {
            &&& r is Some
            &&& r->Some_0@ == pending_views(old(queue)@).first()
            &&& pending_views(final(queue)@) == pending_views(old(queue)@).drop_first()
        },
{
    if queue.len() == 0 {
        return None;
    }
    let first = queue.remove(0);
    proof {
        assert(pending_views(queue@) =~= pending_views(old(queue)@).drop_first());
    }
    Some(first)
}

/// Messages queued while a member runs are processed in arrival order,
/// each exactly once: after `k` pops the next message out is the one
/// that arrived `k`-th, and the rest keep their order.
pub proof fn lemma_queue_fifo(q: Seq<PendingMessageView>, k: int)
    requires
        0 <= k < q.len(),
    ensures
        q.skip(k).first() == q[k],
        q.skip(k).drop_first() =~= q.skip(k + 1),
{
    assert(q.skip(k).first() == q[k]);
}

// ------------------------------------------------------------------
// Mention statuses
// ------------------------------------------------------------------

/// The recorded status of this agent's mention, if any.
pub open spec fn spec_status_of(
    statuses: Seq<(Seq<char>, MentionStatus)>,
    name: Seq<char>,
) -> Option<MentionStatus>
    decreases statuses.len(),
{
    if statuses.len() == 0 {
        None
    } else if statuses[0].0 == name {
        Some(statuses[0].1)
    } else {
        spec_status_of(statuses.drop_first(), name)
    }
}

/// Store label of a mention status.
pub open spec fn spec_mention_status_tag(s: MentionStatus) -> Seq<char> {
    match s {
        MentionStatus::Received => "received"@,
        MentionStatus::Running => "running"@,
        MentionStatus::Completed => "completed"@,
        MentionStatus::Failed => "failed"@,
    }
}

/// Store label of a mention status.
pub fn mention_status_as_str(status: &MentionStatus) -> (r: &'static str)
    ensures
        r@ == spec_mention_status_tag(*status),
{
    match status {
        MentionStatus::Received => "received",
        MentionStatus::Running => "running",
        MentionStatus::Completed => "completed",
        MentionStatus::Failed => "failed",
    }
}

/// Record a mention status for an agent, never moving backwards in the
/// lattice `Received < Running < Completed|Failed`: a downgrade leaves
/// the map unchanged; otherwise the agent's entry is set and every other
/// entry is untouched.
pub fn advance_mention_status(
    statuses: &mut Vec<(String, MentionStatus)>,
    agent_name: &String,
    status: MentionStatus,
)
    ensures
        ({
            let old_views = old(statuses)@.map_values(|p: (String, MentionStatus)| (p.0@, p.1));
            let new_views = final(statuses)@.map_values(|p: (String, MentionStatus)| (p.0@, p.1));
            &&& (match spec_status_of(old_views, agent_name@) {
                Some(existing) => if mention_status_advances(existing, status) {
                    spec_status_of(new_views, agent_name@) == Some(status)
                } else {
                    new_views == old_views
                },
                None => spec_status_of(new_views, agent_name@) == Some(status),
            })
            &&& forall|n: Seq<char>|
                n != agent_name@ ==> #[trigger] spec_status_of(new_views, n) == spec_status_of(
                    old_views,
                    n,
                )
        }),
{
    let ghost old_views = statuses@.map_values(|p: (String, MentionStatus)| (p.0@, p.1));
    let mut i: usize = 0;
    assert(old_views.skip(0) =~= old_views);
    while i < statuses.len()
        invariant
            i <= statuses@.len(),
            statuses@ == old(statuses)@,
            old_views == statuses@.map_values(|p: (String, MentionStatus)| (p.0@, p.1)),
            forall|k: int| 0 <= k < i ==> old_views[k].0 != agent_name@,
            spec_status_of(old_views, agent_name@) == spec_status_of(
                old_views.skip(i as int),
                agent_name@,
            ),
        decreases statuses@.len() - i,
    {
        assert(old_views.skip(i as int).first() == old_views[i as int]);
        assert(old_views[i as int] == (statuses@[i as int].0@, statuses@[i as int].1));
        if statuses[i].0.eq(agent_name) {
            assert(spec_status_of(old_views, agent_name@) == Some(statuses@[i as int].1));
            let existing: MentionStatus = statuses[i].1;
            let existing_rank: u8 = match existing {
                MentionStatus::Received => 0,
                MentionStatus::Running => 1,
                MentionStatus::Completed => 2,
                MentionStatus::Failed => 2,
            };
            let status_rank: u8 = match status {
                MentionStatus::Received => 0,
                MentionStatus::Running => 1,
                MentionStatus::Completed => 2,
                MentionStatus::Failed => 2,
            };
            if existing_rank < status_rank || existing == status {
                assert(mention_status_advances(existing, status));
                let name_copy: String = statuses[i].0.clone();
                statuses.set(i, (name_copy, status));
                proof {
                    let new_views = statuses@.map_values(
                        |p: (String, MentionStatus)| (p.0@, p.1),
                    );
                    lemma_status_of_update(old_views, new_views, i as int, agent_name@, status);
                }
            } else {
                assert(!mention_status_advances(existing, status));
            }
            return ;
        }
        assert(old_views.skip(i as int).drop_first() =~= old_views.skip(i as int + 1));
        i += 1;
    }
    assert(old_views.skip(statuses@.len() as int) =~= Seq::<(Seq<char>, MentionStatus)>::empty());
    assert(spec_status_of(old_views, agent_name@) is None);
    statuses.push((agent_name.clone(), status));
    proof {
        let new_views = statuses@.map_values(|p: (String, MentionStatus)| (p.0@, p.1));
        assert(new_views =~= old_views.push((agent_name@, status)));
        lemma_status_of_push(old_views, agent_name@, status);
        assert forall|n: Seq<char>|
            n != agent_name@ implies #[trigger] spec_status_of(new_views, n) == spec_status_of(
            old_views,
            n,
        ) by {
            lemma_status_of_push_other(old_views, agent_name@, status, n);
        }
    }
}

proof fn lemma_status_of_update(
    old_views: Seq<(Seq<char>, MentionStatus)>,
    new_views: Seq<(Seq<char>, MentionStatus)>,
    i: int,
    name: Seq<char>,
    status: MentionStatus,
)
    requires
        0 <= i < old_views.len(),
        new_views =~= old_views.update(i, (name, status)),
        old_views[i].0 == name,
        forall|k: int| 0 <= k < i ==> old_views[k].0 != name,
    ensures
        spec_status_of(new_views, name) == Some(status),
        forall|n: Seq<char>|
            n != name ==> #[trigger] spec_status_of(new_views, n) == spec_status_of(old_views, n),
{
    assert(new_views.skip(0) =~= new_views);
    assert(old_views.skip(0) =~= old_views);
    lemma_status_of_prefix_update(old_views, new_views, i, name, status, 0);
    assert forall|n: Seq<char>|
        n != name implies #[trigger] spec_status_of(new_views, n) == spec_status_of(
        old_views,
        n,
    ) by {
        lemma_status_of_other_update(old_views, new_views, i, name, status, n, 0);
    }
}

proof fn lemma_status_of_prefix_update(
    old_views: Seq<(Seq<char>, MentionStatus)>,
    new_views: Seq<(Seq<char>, MentionStatus)>,
    i: int,
    name: Seq<char>,
    status: MentionStatus,
    j: int,
)
    requires
        0 <= j <= i < old_views.len(),
        new_views =~= old_views.update(i, (name, status)),
        old_views[i].0 == name,
        forall|k: int| 0 <= k < i ==> old_views[k].0 != name,
    ensures
        spec_status_of(new_views.skip(j), name) == Some(status),
    decreases i - j,
{
    assert(new_views.len() == old_views.len());
    assert(new_views.skip(j).first() == new_views[j]);
    if j == i {
        assert(new_views[i] == (name, status));
    } else {
        assert(new_views[j] == old_views[j]);
        assert(new_views.skip(j).drop_first() =~= new_views.skip(j + 1));
        lemma_status_of_prefix_update(old_views, new_views, i, name, status, j + 1);
    }
}

proof fn lemma_status_of_other_update(
    old_views: Seq<(Seq<char>, MentionStatus)>,
    new_views: Seq<(Seq<char>, MentionStatus)>,
    i: int,
    name: Seq<char>,
    status: MentionStatus,
    n: Seq<char>,
    j: int,
)
    requires
        0 <= j <= old_views.len(),
        0 <= i < old_views.len(),
        new_views =~= old_views.update(i, (name, status)),
        old_views[i].0 == name,
        n != name,
    ensures
        spec_status_of(new_views.skip(j), n) == spec_status_of(old_views.skip(j), n),
    decreases old_views.len() - j,
{
    if j < old_views.len() {
        assert(new_views.skip(j).first() == new_views[j]);
        assert(old_views.skip(j).first() == old_views[j]);
        assert(new_views.skip(j).drop_first() =~= new_views.skip(j + 1));
        assert(old_views.skip(j).drop_first() =~= old_views.skip(j + 1));
        if j == i {
            assert(new_views[j] == (name, status));
            assert(old_views[j].0 == name);
            lemma_status_of_other_update(old_views, new_views, i, name, status, n, j + 1);
        } else {
            assert(new_views[j] == old_views[j]);
            lemma_status_of_other_update(old_views, new_views, i, name, status, n, j + 1);
        }
    } else {
        assert(new_views.skip(j) =~= Seq::<(Seq<char>, MentionStatus)>::empty());
        assert(old_views.skip(j) =~= Seq::<(Seq<char>, MentionStatus)>::empty());
    }
}

proof fn lemma_status_of_push(
    old_views: Seq<(Seq<char>, MentionStatus)>,
    name: Seq<char>,
    status: MentionStatus,
)
    requires
        forall|k: int| 0 <= k < old_views.len() ==> old_views[k].0 != name,
    ensures
        spec_status_of(old_views.push((name, status)), name) == Some(status),
    decreases old_views.len(),
{
    let pushed = old_views.push((name, status));
    if old_views.len() == 0 {
        assert(pushed[0] == (name, status));
    } else {
        assert(pushed.first() == old_views[0]);
        assert(pushed.drop_first() =~= old_views.drop_first().push((name, status)));
        assert(forall|k: int|
            0 <= k < old_views.drop_first().len() ==> old_views.drop_first()[k]
                == old_views[k + 1]);
        lemma_status_of_push(old_views.drop_first(), name, status);
    }
}

proof fn lemma_status_of_push_other(
    old_views: Seq<(Seq<char>, MentionStatus)>,
    name: Seq<char>,
    status: MentionStatus,
    n: Seq<char>,
)
    requires
        n != name,
    ensures
        spec_status_of(old_views.push((name, status)), n) == spec_status_of(old_views, n),
    decreases old_views.len(),
{
    let pushed = old_views.push((name, status));
    if old_views.len() == 0 {
        assert(pushed[0] == (name, status));
        assert(spec_status_of(old_views, n) is None);
    } else {
        assert(pushed.first() == old_views[0]);
        assert(pushed.drop_first() =~= old_views.drop_first().push((name, status)));
        if old_views[0].0 == n {
            assert(spec_status_of(pushed, n) == Some(old_views[0].1));
            assert(spec_status_of(old_views, n) == Some(old_views[0].1));
        } else {
            lemma_status_of_push_other(old_views.drop_first(), name, status, n);
            assert(spec_status_of(pushed, n) == spec_status_of(pushed.drop_first(), n));
            assert(spec_status_of(old_views, n) == spec_status_of(old_views.drop_first(), n));
        }
    }
}

/// A mention's recorded status only climbs the lattice
/// `Received < Running < Completed|Failed`: whatever `advance_mention_status`
/// is asked to write, the stored rank never decreases.
pub proof fn lemma_mention_status_monotone(
    existing: MentionStatus,
    requested: MentionStatus,
    written: MentionStatus,
)
    requires
        written == if mention_status_advances(existing, requested) {
            requested
        } else {
            existing
        },
    ensures
        mention_status_rank(written) >= mention_status_rank(existing),
{
}

} // verus!

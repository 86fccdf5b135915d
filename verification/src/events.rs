//! Stream events published to per-session subscribers.

use vstd::prelude::*;

use crate::model::{
    ChatMessage, ChatMessageView, ChatSessionAgentState, ChatStreamDeltaType, MentionStatus,
};

verus! {

/// Warning attached to stream events when compression fell back to
/// truncation.
#[derive(Debug)]
pub struct CompressionWarning {
    pub code: String,
    pub message: String,
    pub split_file_path: String,
}

/// Mathematical value of a stream compression warning.
pub struct EventWarningView {
    pub code: Seq<char>,
    pub message: Seq<char>,
    pub split_file_path: Seq<char>,
}

impl View for CompressionWarning {
    type V = EventWarningView;

    open spec fn view(&self) -> EventWarningView {
        EventWarningView {
            code: self.code@,
            message: self.message@,
            split_file_path: self.split_file_path@,
        }
    }
}

impl Clone for CompressionWarning {
    fn clone(&self) -> (r: Self)
        ensures
            r@ == self@,
    {
        CompressionWarning {
            code: self.code.clone(),
            message: self.message.clone(),
            split_file_path: self.split_file_path.clone(),
        }
    }
}

impl CompressionWarning {
    /// The stream copy of a compression-engine warning.
    pub fn from_compression(w: &crate::compression::CompressionWarning) -> (r: CompressionWarning)
        ensures
            r@.code == w@.code,
            r@.message == w@.message,
            r@.split_file_path == w@.split_file_path,
    {
        CompressionWarning {
            code: w.code.clone(),
            message: w.message.clone(),
            split_file_path: w.split_file_path.clone(),
        }
    }
}

/// One event on a session's stream.
#[derive(Debug)]
pub enum ChatStreamEvent {
    MessageNew {
        message: ChatMessage,
    },
    AgentDelta {
        session_id: u128,
        session_agent_id: u128,
        agent_id: u128,
        run_id: u128,
        stream_type: ChatStreamDeltaType,
        content: String,
        delta: bool,
        is_final: bool,
    },
    AgentState {
        session_agent_id: u128,
        agent_id: u128,
        state: ChatSessionAgentState,
        started_at: Option<String>,
    },
    MentionAcknowledged {
        session_id: u128,
        message_id: u128,
        mentioned_agent: String,
        agent_id: u128,
        status: MentionStatus,
    },
    CompressionWarning {
        session_id: u128,
        warning: CompressionWarning,
    },
}

/// Mathematical value of a stream event.
pub enum ChatStreamEventView {
    MessageNew {
        message: ChatMessageView,
    },
    AgentDelta {
        session_id: u128,
        session_agent_id: u128,
        agent_id: u128,
        run_id: u128,
        stream_type: ChatStreamDeltaType,
        content: Seq<char>,
        delta: bool,
        is_final: bool,
    },
    AgentState {
        session_agent_id: u128,
        agent_id: u128,
        state: ChatSessionAgentState,
        started_at: Option<Seq<char>>,
    },
    MentionAcknowledged {
        session_id: u128,
        message_id: u128,
        mentioned_agent: Seq<char>,
        agent_id: u128,
        status: MentionStatus,
    },
    CompressionWarning {
        session_id: u128,
        warning: EventWarningView,
    },
}

impl View for ChatStreamEvent {
    type V = ChatStreamEventView;

    open spec fn view(&self) -> ChatStreamEventView {
        match self {
            ChatStreamEvent::MessageNew { message } => ChatStreamEventView::MessageNew {
                message: message@,
            },
            ChatStreamEvent::AgentDelta {
                session_id,
                session_agent_id,
                agent_id,
                run_id,
                stream_type,
                content,
                delta,
                is_final,
            } => ChatStreamEventView::AgentDelta {
                session_id: *session_id,
                session_agent_id: *session_agent_id,
                agent_id: *agent_id,
                run_id: *run_id,
                stream_type: *stream_type,
                content: content@,
                delta: *delta,
                is_final: *is_final,
            },
            ChatStreamEvent::AgentState { session_agent_id, agent_id, state, started_at } => {
                ChatStreamEventView::AgentState {
                    session_agent_id: *session_agent_id,
                    agent_id: *agent_id,
                    state: *state,
                    started_at: match started_at {
                        Some(s) => Some(s@),
                        None => None,
                    },
                }
            },
            ChatStreamEvent::MentionAcknowledged {
                session_id,
                message_id,
                mentioned_agent,
                agent_id,
                status,
            } => ChatStreamEventView::MentionAcknowledged {
                session_id: *session_id,
                message_id: *message_id,
                mentioned_agent: mentioned_agent@,
                agent_id: *agent_id,
                status: *status,
            },
            ChatStreamEvent::CompressionWarning { session_id, warning } => {
                ChatStreamEventView::CompressionWarning {
                    session_id: *session_id,
                    warning: warning@,
                }
            },
        }
    }
}

/// Views of a vector of events.
pub open spec fn event_views(v: Seq<ChatStreamEvent>) -> Seq<ChatStreamEventView> {
    v.map_values(|e: ChatStreamEvent| e@)
}

/// The acknowledgement published when a mention joins a busy member's
/// queue.
pub fn queue_ack_event(
    session_id: u128,
    message_id: u128,
    agent_id: u128,
    agent_name: &String,
) -> (r: ChatStreamEvent)
    ensures
        r@ == (ChatStreamEventView::MentionAcknowledged {
            session_id,
            message_id,
            mentioned_agent: agent_name@,
            agent_id,
            status: MentionStatus::Received,
        }),
{
    ChatStreamEvent::MentionAcknowledged {
        session_id,
        message_id,
        mentioned_agent: agent_name.clone(),
        agent_id,
        status: MentionStatus::Received,
    }
}

/// The events published when a run starts, in publication order: the
/// member's Running state first, then the mention's Running
/// acknowledgement — the state change always precedes the deltas and
/// acknowledgements of the same run.
pub fn run_start_events(
    session_id: u128,
    message_id: u128,
    session_agent_id: u128,
    agent_id: u128,
    agent_name: &String,
    started_at: &String,
) -> (r: Vec<ChatStreamEvent>)
    ensures
        event_views(r@) == seq![
            ChatStreamEventView::AgentState {
                session_agent_id,
                agent_id,
                state: ChatSessionAgentState::Running,
                started_at: Some(started_at@),
            },
            ChatStreamEventView::MentionAcknowledged {
                session_id,
                message_id,
                mentioned_agent: agent_name@,
                agent_id,
                status: MentionStatus::Running,
            },
        ],
{
    let mut out: Vec<ChatStreamEvent> = Vec::new();
    out.push(ChatStreamEvent::AgentState {
        session_agent_id,
        agent_id,
        state: ChatSessionAgentState::Running,
        started_at: Some(started_at.clone()),
    });
    out.push(ChatStreamEvent::MentionAcknowledged {
        session_id,
        message_id,
        mentioned_agent: agent_name.clone(),
        agent_id,
        status: MentionStatus::Running,
    });
    assert(event_views(out@) =~= seq![
        ChatStreamEventView::AgentState {
            session_agent_id,
            agent_id,
            state: ChatSessionAgentState::Running,
            started_at: Some(started_at@),
        },
        ChatStreamEventView::MentionAcknowledged {
            session_id,
            message_id,
            mentioned_agent: agent_name@,
            agent_id,
            status: MentionStatus::Running,
        },
    ]);
    out
}

/// The events published when a run finalizes, in publication order: the
/// closing delta first, then the member's final state, then the
/// mention's terminal acknowledgement — Completed after a success that
/// leaves the member Idle, Failed after a failure that leaves it Dead.
pub fn run_finish_events(
    session_id: u128,
    message_id: u128,
    session_agent_id: u128,
    agent_id: u128,
    run_id: u128,
    agent_name: &String,
    latest_assistant: &String,
    success: bool,
) -> (r: Vec<ChatStreamEvent>)
    ensures
        event_views(r@) == seq![
            ChatStreamEventView::AgentDelta {
                session_id,
                session_agent_id,
                agent_id,
                run_id,
                stream_type: ChatStreamDeltaType::Assistant,
                content: latest_assistant@,
                delta: false,
                is_final: true,
            },
            ChatStreamEventView::AgentState {
                session_agent_id,
                agent_id,
                state: if success {
                    ChatSessionAgentState::Idle
                } else {
                    ChatSessionAgentState::Dead
                },
                started_at: None,
            },
            ChatStreamEventView::MentionAcknowledged {
                session_id,
                message_id,
                mentioned_agent: agent_name@,
                agent_id,
                status: if success {
                    MentionStatus::Completed
                } else {
                    MentionStatus::Failed
                },
            },
        ],
{
    let mut out: Vec<ChatStreamEvent> = Vec::new();
    out.push(ChatStreamEvent::AgentDelta {
        session_id,
        session_agent_id,
        agent_id,
        run_id,
        stream_type: ChatStreamDeltaType::Assistant,
        content: latest_assistant.clone(),
        delta: false,
        is_final: true,
    });
    out.push(ChatStreamEvent::AgentState {
        session_agent_id,
        agent_id,
        state: if success {
            ChatSessionAgentState::Idle
        } else {
            ChatSessionAgentState::Dead
        },
        started_at: None,
    });
    out.push(ChatStreamEvent::MentionAcknowledged {
        session_id,
        message_id,
        mentioned_agent: agent_name.clone(),
        agent_id,
        status: if success {
            MentionStatus::Completed
        } else {
            MentionStatus::Failed
        },
    });
    assert(event_views(out@) =~= seq![
        ChatStreamEventView::AgentDelta {
            session_id,
            session_agent_id,
            agent_id,
            run_id,
            stream_type: ChatStreamDeltaType::Assistant,
            content: latest_assistant@,
            delta: false,
            is_final: true,
        },
        ChatStreamEventView::AgentState {
            session_agent_id,
            agent_id,
            state: if success {
                ChatSessionAgentState::Idle
            } else {
                ChatSessionAgentState::Dead
            },
            started_at: None,
        },
        ChatStreamEventView::MentionAcknowledged {
            session_id,
            message_id,
            mentioned_agent: agent_name@,
            agent_id,
            status: if success {
                MentionStatus::Completed
            } else {
                MentionStatus::Failed
            },
        },
    ]);
    out
}

/// The state event published by a manual stop: the member is Dead.
pub fn stop_event(session_agent_id: u128, agent_id: u128) -> (r: ChatStreamEvent)
    ensures
        r@ == (ChatStreamEventView::AgentState {
            session_agent_id,
            agent_id,
            state: ChatSessionAgentState::Dead,
            started_at: None,
        }),
{
    ChatStreamEvent::AgentState {
        session_agent_id,
        agent_id,
        state: ChatSessionAgentState::Dead,
        started_at: None,
    }
}

/// The acknowledgements published when a dead member's queue is
/// dropped: one Failed per queued message, in queue order.
pub fn failed_queue_events(queue: &Vec<crate::scheduler::PendingMessage>) -> (r: Vec<
    ChatStreamEvent,
>)
    ensures
        r@.len() == queue@.len(),
        forall|k: int|
            0 <= k < queue@.len() ==> event_views(r@)[k]
                == (ChatStreamEventView::MentionAcknowledged {
                session_id: queue@[k]@.session_id,
                message_id: queue@[k]@.message.id,
                mentioned_agent: queue@[k]@.agent_name,
                agent_id: queue@[k]@.agent_id,
                status: MentionStatus::Failed,
            }),
{
    let mut out: Vec<ChatStreamEvent> = Vec::new();
    let mut i: usize = 0;
    while i < queue.len()
        invariant
            i <= queue@.len(),
            out@.len() == i,
            forall|k: int|
                0 <= k < i ==> event_views(out@)[k]
                    == (ChatStreamEventView::MentionAcknowledged {
                    session_id: queue@[k]@.session_id,
                    message_id: queue@[k]@.message.id,
                    mentioned_agent: queue@[k]@.agent_name,
                    agent_id: queue@[k]@.agent_id,
                    status: MentionStatus::Failed,
                }),
        decreases queue@.len() - i,
    {
        let p = &queue[i];
        let ghost before = out@;
        out.push(ChatStreamEvent::MentionAcknowledged {
            session_id: p.session_id,
            message_id: p.message.id,
            mentioned_agent: p.agent_name.clone(),
            agent_id: p.agent_id,
            status: MentionStatus::Failed,
        });
        proof {
            assert forall|k: int| 0 <= k < i + 1 implies event_views(out@)[k]
                == (ChatStreamEventView::MentionAcknowledged {
                session_id: queue@[k]@.session_id,
                message_id: queue@[k]@.message.id,
                mentioned_agent: queue@[k]@.agent_name,
                agent_id: queue@[k]@.agent_id,
                status: MentionStatus::Failed,
            }) by {
                assert(event_views(out@)[k] == out@[k]@);
                if k < i {
                    assert(out@[k] == before[k]);
                    assert(event_views(before)[k] == before[k]@);
                } else {
                    assert(out@[k] == out@.last());
                }
            }
        }
        i += 1;
    }
    out
}

} // verus!

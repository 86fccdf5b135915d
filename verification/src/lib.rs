//! Orchestration core of a multi-agent group chat.
//!
//! Users and agents exchange messages in sessions; a message that mentions an
//! agent schedules a run of that agent's executor. This crate holds the
//! verified logic of that core: mention resolution, the per-session-agent
//! state machine with its FIFO queue and chain-depth guard, context assembly
//! with token-budgeted compression, prompt construction, and the streaming
//! delta protocol. Process supervision, storage, and transport live outside
//! the crate and drive this logic through plain values.

use vstd::prelude::*;

pub mod api_errors;
pub mod chat;
pub mod compression;
pub mod context;
pub mod events;
pub mod json;
pub mod kimi;
pub mod mentions;
pub mod model;
pub mod model_sync;
pub mod paths;
pub mod presets;
pub mod prompt;
pub mod runner;
pub mod scheduler;
pub mod summary;
pub mod text;
pub mod tokens;

verus! {

/// Greatest chain depth at which an agent-originated message may still
/// trigger further agent runs.
pub const MAX_AGENT_CHAIN_DEPTH: u32 = 5;

/// A message at or beyond the chain-depth limit must not trigger new runs.
pub fn chain_depth_allows_run(chain_depth: u32) -> (r: bool)
    ensures
        r == (chain_depth < MAX_AGENT_CHAIN_DEPTH),
{
    chain_depth < MAX_AGENT_CHAIN_DEPTH
}

} // verus!

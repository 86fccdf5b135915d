//! Run bookkeeping: directory naming, reply handles, the streaming
//! delta protocol, exit arbitration, and token-usage accounting.
//!
//! The surrounding runtime owns the subprocess and the store; these
//! functions decide what it writes, emits, and persists.

use vstd::prelude::*;

use crate::json::{hex_char, spec_as_str, spec_as_u64, spec_get, JsonValue};
use crate::model::ChatMessageView;
use crate::text::{chars_to_string, dec_digits, str_to_chars, u64_to_dec};
use crate::tokens::{bpe_token_count, count_text_tokens, sat_add_u32};

verus! {

/// Token accounting of one run.
#[derive(Clone, Copy, Debug, PartialEq, Eq, Structural)]
pub struct TokenUsageInfo {
    pub total_tokens: u32,
    pub model_context_window: u32,
    pub input_tokens: Option<u32>,
    pub output_tokens: Option<u32>,
    pub cache_read_tokens: Option<u32>,
    pub is_estimated: bool,
}

// ------------------------------------------------------------------
// Identifier and directory naming
// ------------------------------------------------------------------

/// Character at position `i` of the hyphenated form of a 128-bit id.
pub open spec fn spec_uuid_char(id: u128, i: int) -> char {
    if i == 8 || i == 13 || i == 18 || i == 23 {
        '-'
    } else {
        let k = if i < 8 {
            i
        } else if i < 13 {
            i - 1
        } else if i < 18 {
            i - 2
        } else if i < 23 {
            i - 3
        } else {
            i - 4
        };
        hex_char(((id >> ((31 - k) * 4) as u128) & 0xf) as nat)
    }
}

/// The hyphenated text form of a 128-bit id, 36 characters.
pub open spec fn spec_uuid_str(id: u128) -> Seq<char> {
    Seq::new(36, |i: int| spec_uuid_char(id, i))
}

fn hex_digit(d: u128) -> (r: char)
    requires
        d < 16,
    ensures
        r == hex_char(d as nat),
{
    if d == 0 { '0' }
    else if d == 1 { '1' }
    else if d == 2 { '2' }
    else if d == 3 { '3' }
    else if d == 4 { '4' }
    else if d == 5 { '5' }
    else if d == 6 { '6' }
    else if d == 7 { '7' }
    else if d == 8 { '8' }
    else if d == 9 { '9' }
    else if d == 10 { 'a' }
    else if d == 11 { 'b' }
    else if d == 12 { 'c' }
    else if d == 13 { 'd' }
    else if d == 14 { 'e' }
    else { 'f' }
}

/// Hyphenated text form of a 128-bit id (the usual 8-4-4-4-12 shape).
pub fn uuid_hyphenated(id: u128) -> (r: String)
    ensures
        r@ == spec_uuid_str(id),
{
    let mut out: Vec<char> = Vec::new();
    let mut i: usize = 0;
    while i < 36
        invariant
            i <= 36,
            out@.len() == i,
            forall|j: int| 0 <= j < i ==> out@[j] == spec_uuid_char(id, j),
        decreases 36 - i,
    {
        if i == 8 || i == 13 || i == 18 || i == 23 {
            out.push('-');
        } else {
            let k: usize = if i < 8 {
                i
            } else if i < 13 {
                i - 1
            } else if i < 18 {
                i - 2
            } else if i < 23 {
                i - 3
            } else {
                i - 4
            };
            let shift: u32 = ((31 - k) * 4) as u32;
            let nibble: u128 = (id >> shift as u128) & 0xf;
            assert(nibble < 16) by (bit_vector)
                requires
                    nibble == (id >> shift as u128) & 0xf,
            ;
            out.push(hex_digit(nibble));
        }
        i += 1;
    }
    assert(out@ =~= spec_uuid_str(id));
    chars_to_string(&out)
}

/// Decimal digits of `n`, left-padded with zeros to at least four
/// places.
pub open spec fn spec_padded4(n: u64) -> Seq<char> {
    let d = dec_digits(n as nat);
    if d.len() >= 4 {
        d
    } else {
        Seq::new((4 - d.len()) as nat, |i: int| '0') + d
    }
}

/// Decimal digits of a run index, zero-padded to four places.
pub fn padded4(n: u64) -> (r: Vec<char>)
    ensures
        r@ == spec_padded4(n),
{
    let digits: Vec<char> = u64_to_dec(n);
    if digits.len() >= 4 {
        return digits;
    }
    let mut out: Vec<char> = Vec::new();
    let pad: usize = 4 - digits.len();
    let mut i: usize = 0;
    while i < pad
        invariant
            i <= pad,
            out@.len() == i,
            forall|j: int| 0 <= j < i ==> out@[j] == '0',
        decreases pad - i,
    {
        out.push('0');
        i += 1;
    }
    crate::context::append_chars(&mut out, &digits);
    assert(out@ =~= spec_padded4(n));
    out
}

/// The name of a run's record directory:
/// `session_agent_<id>_run_<nnnn>`.
pub open spec fn spec_run_records_prefix(session_agent_id: u128, run_index: u64) -> Seq<char> {
    "session_agent_"@ + spec_uuid_str(session_agent_id) + "_run_"@ + spec_padded4(run_index)
}

/// Name of a run's record directory inside the session's runs
/// directory.
pub fn run_records_prefix(session_agent_id: u128, run_index: i64) -> (r: String)
    requires
        run_index >= 0,
    ensures
        r@ == spec_run_records_prefix(session_agent_id, run_index as u64),
{
    let mut out: String = "session_agent_".to_owned();
    out.append(uuid_hyphenated(session_agent_id).as_str());
    out.append("_run_");
    out.append(chars_to_string(&padded4(run_index as u64)).as_str());
    out
}

/// The default workspace of a member:
/// `<asset_dir>/chat/session_<sid>/agents/<agent_id>`.
pub open spec fn spec_workspace_path(asset_dir: Seq<char>, session_id: u128, agent_id: u128) -> Seq<
    char,
> {
    asset_dir + "/chat/session_"@ + spec_uuid_str(session_id) + "/agents/"@ + spec_uuid_str(
        agent_id,
    )
}

/// Derive the default workspace path of a member under the asset root.
pub fn build_workspace_path(asset_dir: &str, session_id: u128, agent_id: u128) -> (r: String)
    ensures
        r@ == spec_workspace_path(asset_dir@, session_id, agent_id),
{
    let mut out: String = asset_dir.to_owned();
    out.append("/chat/session_");
    out.append(uuid_hyphenated(session_id).as_str());
    out.append("/agents/");
    out.append(uuid_hyphenated(agent_id).as_str());
    out
}

/// The per-session runs directory inside a workspace:
/// `<workspace>/.agents_chatgroup/runs/<sid>/run_records`.
pub open spec fn spec_run_records_dir(workspace: Seq<char>, session_id: u128) -> Seq<char> {
    workspace + "/.agents_chatgroup/runs/"@ + spec_uuid_str(session_id) + "/run_records"@
}

/// Derive the per-session run-records directory inside a workspace.
pub fn workspace_run_records_dir(workspace_path: &str, session_id: u128) -> (r: String)
    ensures
        r@ == spec_run_records_dir(workspace_path@, session_id),
{
    let mut out: String = workspace_path.to_owned();
    out.append("/.agents_chatgroup/runs/");
    out.append(uuid_hyphenated(session_id).as_str());
    out.append("/run_records");
    out
}

/// The per-session context directory inside a workspace:
/// `<workspace>/.agents_chatgroup/context/<sid>`.
pub open spec fn spec_context_dir(workspace: Seq<char>, session_id: u128) -> Seq<char> {
    workspace + "/.agents_chatgroup/context/"@ + spec_uuid_str(session_id)
}

/// Derive the per-session context directory inside a workspace.
pub fn workspace_context_dir(workspace_path: &str, session_id: u128) -> (r: String)
    ensures
        r@ == spec_context_dir(workspace_path@, session_id),
{
    let mut out: String = workspace_path.to_owned();
    out.append("/.agents_chatgroup/context/");
    out.append(uuid_hyphenated(session_id).as_str());
    out
}

/// The environment injected into every executor run: the session, the
/// agent, the membership, the run, and the two context paths, in this
/// order.
pub fn run_environment(
    session_id: u128,
    agent_id: u128,
    session_agent_id: u128,
    run_id: u128,
    context_path: &String,
    context_run_path: &String,
) -> (r: Vec<(String, String)>)
    ensures
        r@.len() == 6,
        r@[0].0@ == "VK_CHAT_SESSION_ID"@ && r@[0].1@ == spec_uuid_str(session_id),
        r@[1].0@ == "VK_CHAT_AGENT_ID"@ && r@[1].1@ == spec_uuid_str(agent_id),
        r@[2].0@ == "VK_CHAT_SESSION_AGENT_ID"@ && r@[2].1@ == spec_uuid_str(session_agent_id),
        r@[3].0@ == "VK_CHAT_RUN_ID"@ && r@[3].1@ == spec_uuid_str(run_id),
        r@[4].0@ == "VK_CHAT_CONTEXT_PATH"@ && r@[4].1@ == context_path@,
        r@[5].0@ == "VK_CHAT_CONTEXT_RUN_PATH"@ && r@[5].1@ == context_run_path@,
{
    let mut env: Vec<(String, String)> = Vec::new();
    env.push(("VK_CHAT_SESSION_ID".to_owned(), uuid_hyphenated(session_id)));
    env.push(("VK_CHAT_AGENT_ID".to_owned(), uuid_hyphenated(agent_id)));
    env.push(("VK_CHAT_SESSION_AGENT_ID".to_owned(), uuid_hyphenated(session_agent_id)));
    env.push(("VK_CHAT_RUN_ID".to_owned(), uuid_hyphenated(run_id)));
    env.push(("VK_CHAT_CONTEXT_PATH".to_owned(), context_path.clone()));
    env.push(("VK_CHAT_CONTEXT_RUN_PATH".to_owned(), context_run_path.clone()));
    env
}

// ------------------------------------------------------------------
// Reply handles
// ------------------------------------------------------------------

pub open spec fn is_handle_keep_char(c: char) -> bool {
    ('a' <= c && c <= 'z') || ('A' <= c && c <= 'Z') || ('0' <= c && c <= '9') || c == '_' || c
        == '-'
}

/// The sender handle with everything but ASCII alphanumerics, `_` and
/// `-` removed.
pub open spec fn spec_sanitized_handle(s: Seq<char>) -> Seq<char>
    decreases s.len(),
{
    if s.len() == 0 {
        Seq::empty()
    } else {
        let rest = spec_sanitized_handle(s.drop_last());
        if is_handle_keep_char(s.last()) {
            rest.push(s.last())
        } else {
            rest
        }
    }
}

/// The handle an agent should address its reply to: the source
/// message's sender handle reduced to safe characters, defaulting to
/// `you` when absent or empty after sanitizing.
pub open spec fn spec_reply_handle(m: ChatMessageView) -> Seq<char> {
    let raw = match m.meta.sender_handle {
        Some(h) => h,
        None => "you"@,
    };
    let cleaned = spec_sanitized_handle(raw);
    if cleaned.len() == 0 {
        "you"@
    } else {
        cleaned
    }
}

/// Resolve the handle an agent's reply addresses.
pub fn resolve_reply_handle(message: &crate::model::ChatMessage) -> (r: String)
    ensures
        r@ == spec_reply_handle(message@),
{
    let raw: String = match &message.meta.sender_handle {
        Some(h) => h.clone(),
        None => "you".to_owned(),
    };
    let chars: Vec<char> = str_to_chars(raw.as_str());
    let mut cleaned: Vec<char> = Vec::new();
    let mut i: usize = 0;
    assert(cleaned@ =~= spec_sanitized_handle(chars@.subrange(0, 0)));
    while i < chars.len()
        invariant
            i <= chars@.len(),
            chars@ == raw@,
            cleaned@ == spec_sanitized_handle(chars@.subrange(0, i as int)),
        decreases chars@.len() - i,
    {
        proof {
            assert(chars@.subrange(0, i as int + 1).drop_last() =~= chars@.subrange(0, i as int));
            assert(chars@.subrange(0, i as int + 1).last() == chars@[i as int]);
        }
        let c: char = chars[i];
        if ('a' <= c && c <= 'z') || ('A' <= c && c <= 'Z') || ('0' <= c && c <= '9') || c == '_'
            || c == '-' {
            cleaned.push(c);
        }
        i += 1;
    }
    assert(chars@.subrange(0, chars@.len() as int) =~= chars@);
    if cleaned.len() == 0 {
        "you".to_owned()
    } else {
        chars_to_string(&cleaned)
    }
}

/// The final agent message carries the content unchanged.
pub fn apply_reply_prefix(content: &str, handle: Option<&str>) -> (r: String)
    ensures
        r@ == content@,
{
    let _ = handle;
    content.to_owned()
}

/// Chain depth of the agent message produced by a run: one more than
/// the depth of the message that triggered it. The guard admits only
/// sources below the limit, so the sum cannot overflow.
pub fn agent_reply_chain_depth(source_depth: u32) -> (r: u32)
    requires
        source_depth < crate::MAX_AGENT_CHAIN_DEPTH,
    ensures
        r == source_depth + 1,
{
    source_depth + 1
}

// ------------------------------------------------------------------
// Streaming deltas
// ------------------------------------------------------------------

/// Delta between the previous and current text of one stream entry:
/// the appended suffix when the entry only grew, else the whole new
/// text.
pub fn compute_delta(previous: &String, current: &String) -> (r: (String, bool))
    ensures
        r.1 == previous@.is_prefix_of(current@),
        r.1 ==> r.0@ == current@.skip(previous@.len() as int),
        !r.1 ==> r.0@ == current@,
{
    let prev_chars: Vec<char> = str_to_chars(previous.as_str());
    let cur_chars: Vec<char> = str_to_chars(current.as_str());
    if prev_chars.len() > cur_chars.len() {
        assert(!previous@.is_prefix_of(current@));
        return (current.clone(), false);
    }
    if !crate::text::range_eq(&cur_chars, 0, &prev_chars) {
        assert(!previous@.is_prefix_of(current@)) by {
            if previous@.is_prefix_of(current@) {
                assert(current@.subrange(0, previous@.len() as int) =~= previous@);
            }
        }
        return (current.clone(), false);
    }
    proof {
        assert(current@.subrange(0, previous@.len() as int) == previous@);
        assert(previous@.is_prefix_of(current@)) by {
            assert(current@.take(previous@.len() as int) =~= current@.subrange(
                0,
                previous@.len() as int,
            ));
        }
    }
    let suffix: Vec<char> = crate::text::copy_range(&cur_chars, prev_chars.len(), cur_chars.len());
    assert(suffix@ =~= current@.skip(previous@.len() as int));
    (chars_to_string(&suffix), true)
}

/// Per-entry text remembered by the stream bridge, keyed by entry
/// index.
pub open spec fn spec_content_of(entries: Seq<(usize, String)>, index: usize) -> Option<Seq<char>>
    decreases entries.len(),
{
    if entries.len() == 0 {
        None
    } else if entries[0].0 == index {
        Some(entries[0].1@)
    } else {
        spec_content_of(entries.drop_first(), index)
    }
}

/// The text last seen for this entry index, empty when none.
pub fn last_content_for(entries: &Vec<(usize, String)>, index: usize) -> (r: String)
    ensures
        match spec_content_of(entries@, index) {
            Some(s) => r@ == s,
            None => r@ == Seq::<char>::empty(),
        },
{
    let ghost all = entries@;
    let mut i: usize = 0;
    assert(all.skip(0) =~= all);
    while i < entries.len()
        invariant
            i <= entries@.len(),
            all == entries@,
            spec_content_of(all, index) == spec_content_of(all.skip(i as int), index),
        decreases entries@.len() - i,
    {
        assert(all.skip(i as int).first() == all[i as int]);
        if entries[i].0 == index {
            return entries[i].1.clone();
        }
        assert(all.skip(i as int).drop_first() =~= all.skip(i as int + 1));
        i += 1;
    }
    assert(all.skip(all.len() as int) =~= Seq::<(usize, String)>::empty());
    String::new()
}

/// Remember the current text of this entry index, replacing the first
/// stored entry for it or appending a new one.
pub fn store_content(entries: &mut Vec<(usize, String)>, index: usize, content: String)
    ensures
        spec_content_of(final(entries)@, index) == Some(content@),
{
    let mut i: usize = 0;
    while i < entries.len()
        invariant
            i <= entries@.len(),
            entries@ == old(entries)@,
            forall|k: int| 0 <= k < i ==> entries@[k].0 != index,
        decreases entries@.len() - i,
    {
        if entries[i].0 == index {
            entries.set(i, (index, content));
            proof {
                lemma_content_of_found(entries@, index, i as int);
            }
            return ;
        }
        i += 1;
    }
    entries.push((index, content));
    proof {
        lemma_content_of_found(entries@, index, entries@.len() - 1);
    }
}

proof fn lemma_content_of_found(entries: Seq<(usize, String)>, index: usize, i: int)
    requires
        0 <= i < entries.len(),
        entries[i].0 == index,
        forall|k: int| 0 <= k < i ==> entries[k].0 != index,
    ensures
        spec_content_of(entries, index) == Some(entries[i].1@),
    decreases i,
{
    if i == 0 {
    } else {
        assert(entries.drop_first()[i - 1] == entries[i]);
        assert(forall|k: int| 0 <= k < i - 1 ==> entries.drop_first()[k] == entries[k + 1]);
        lemma_content_of_found(entries.drop_first(), index, i - 1);
    }
}

// ------------------------------------------------------------------
// Token usage lines
// ------------------------------------------------------------------

/// The token usage a JSON event line reports, if any: either a plain
/// `token_usage` object, or a `codex/event/token_count` notification.
pub open spec fn spec_extract_token_usage(v: JsonValue) -> Option<TokenUsageInfo> {
    if spec_get(v, "type"@) is Some && spec_as_str(spec_get(v, "type"@)->Some_0) == Some(
        "token_usage"@,
    ) {
        match spec_u32_field(v, "total_tokens"@) {
            Some(total) => match spec_u32_field(v, "model_context_window"@) {
                Some(window) => Some(plain_usage(total, window)),
                None => None,
            },
            None => None,
        }
    } else if spec_get(v, "method"@) is Some && spec_as_str(spec_get(v, "method"@)->Some_0)
        == Some("codex/event/token_count"@) {
        match spec_get(v, "params"@) {
            Some(params) => match spec_get(params, "msg"@) {
                Some(msg) => match spec_get(msg, "info"@) {
                    Some(info) => match spec_get(info, "last_token_usage"@) {
                        Some(last) => match spec_u32_field(last, "total_tokens"@) {
                            Some(total) => Some(
                                plain_usage(
                                    total,
                                    match spec_u32_field(info, "model_context_window"@) {
                                        Some(w) => w,
                                        None => 0,
                                    },
                                ),
                            ),
                            None => None,
                        },
                        None => None,
                    },
                    None => None,
                },
                None => None,
            },
            None => None,
        }
    } else {
        None
    }
}

pub open spec fn spec_u32_field(v: JsonValue, key: Seq<char>) -> Option<u32> {
    match spec_get(v, key) {
        Some(m) => match spec_as_u64(m) {
            Some(n) => if n <= u32::MAX {
                Some(n as u32)
            } else {
                None
            },
            None => None,
        },
        None => None,
    }
}

pub open spec fn plain_usage(total: u32, window: u32) -> TokenUsageInfo {
    TokenUsageInfo {
        total_tokens: total,
        model_context_window: window,
        input_tokens: None,
        output_tokens: None,
        cache_read_tokens: None,
        is_estimated: false,
    }
}

fn u32_field(v: &JsonValue, key: &str) -> (r: Option<u32>)
    ensures
        r == spec_u32_field(*v, key@),
{
    match v.get(key) {
        Some(m) => match m.as_u64() {
            Some(n) => if n <= 0xffffffffu64 {
                Some(n as u32)
            } else {
                None
            },
            None => None,
        },
        None => None,
    }
}

fn str_field_is(v: &JsonValue, key: &str, expected: &str) -> (r: bool)
    ensures
        r == (spec_get(*v, key@) is Some && spec_as_str(spec_get(*v, key@)->Some_0) == Some(
            expected@,
        )),
{
    match v.get(key) {
        Some(m) => match m.as_str() {
            Some(s) => crate::text::str_eq(s.as_str(), expected),
            None => false,
        },
        None => false,
    }
}

/// The token usage reported by one parsed JSON event.
pub fn extract_token_usage(v: &JsonValue) -> (r: Option<TokenUsageInfo>)
    ensures
        r == spec_extract_token_usage(*v),
{
    if str_field_is(v, "type", "token_usage") {
        let total: u32 = match u32_field(v, "total_tokens") {
            Some(t) => t,
            None => {
                return None;
            },
        };
        let window: u32 = match u32_field(v, "model_context_window") {
            Some(w) => w,
            None => {
                return None;
            },
        };
        return Some(TokenUsageInfo {
            total_tokens: total,
            model_context_window: window,
            input_tokens: None,
            output_tokens: None,
            cache_read_tokens: None,
            is_estimated: false,
        });
    }
    if !str_field_is(v, "method", "codex/event/token_count") {
        return None;
    }
    let params: &JsonValue = match v.get("params") {
        Some(p) => p,
        None => {
            return None;
        },
    };
    let msg: &JsonValue = match params.get("msg") {
        Some(m) => m,
        None => {
            return None;
        },
    };
    let info: &JsonValue = match msg.get("info") {
        Some(i) => i,
        None => {
            return None;
        },
    };
    let last: &JsonValue = match info.get("last_token_usage") {
        Some(l) => l,
        None => {
            return None;
        },
    };
    let total: u32 = match u32_field(last, "total_tokens") {
        Some(t) => t,
        None => {
            return None;
        },
    };
    let window: u32 = match u32_field(info, "model_context_window") {
        Some(w) => w,
        None => 0,
    };
    Some(TokenUsageInfo {
        total_tokens: total,
        model_context_window: window,
        input_tokens: None,
        output_tokens: None,
        cache_read_tokens: None,
        is_estimated: false,
    })
}

/// Nesting budget of the compact event-line form: enough for the
/// deepest recognized shape, with headroom.
pub const SUBSET_NESTING: u32 = 6;

pub open spec fn spec_line_fuel(l: Seq<char>) -> nat {
    (l.len() + 1) as nat
}

/// The line is one compact JSON value — strings, in-range integers and
/// nested objects, no surrounding whitespace — spanning the whole text.
/// This is the form executors emit for event lines.
pub open spec fn spec_line_in_subset(l: Seq<char>) -> bool {
    l.len() > 0 && crate::json::spec_sub_value_end(l, 0, SUBSET_NESTING as nat, spec_line_fuel(l))
        == l.len()
}

/// The usage a compact event line reports: a `token_usage` object with
/// its two counts, or a `codex/event/token_count` notification with the
/// total under `params.msg.info.last_token_usage` and an optional
/// context window; anything else reports nothing.
pub open spec fn spec_token_usage_of_line(l: Seq<char>) -> Option<TokenUsageInfo> {
    if !spec_line_in_subset(l) {
        None
    } else {
        spec_usage_of_subset_line(l)
    }
}

pub open spec fn spec_usage_of_subset_line(l: Seq<char>) -> Option<TokenUsageInfo> {
    let fl = spec_line_fuel(l);
    let plain = match crate::json::spec_obj_member(l, 0, "type"@, 5, fl) {
        Some(tm) => crate::json::spec_str_leaf(l, tm.0, tm.1) == Some("token_usage"@),
        None => false,
    };
    if plain {
        spec_plain_usage_of_line(l)
    } else {
        spec_codex_usage_of_line(l)
    }
}

pub open spec fn spec_plain_usage_of_line(l: Seq<char>) -> Option<TokenUsageInfo> {
    let fl = spec_line_fuel(l);
    match crate::json::spec_obj_member(l, 0, "total_tokens"@, 5, fl) {
        Some(tt) => match crate::json::spec_u32_leaf(l, tt.0, tt.1) {
            Some(total) => match crate::json::spec_obj_member(l, 0, "model_context_window"@, 5, fl) {
                Some(wm) => match crate::json::spec_u32_leaf(l, wm.0, wm.1) {
                    Some(window) => Some(plain_usage(total, window)),
                    None => None,
                },
                None => None,
            },
            None => None,
        },
        None => None,
    }
}

pub open spec fn spec_codex_usage_of_line(l: Seq<char>) -> Option<TokenUsageInfo> {
    let fl = spec_line_fuel(l);
    let is_codex = match crate::json::spec_obj_member(l, 0, "method"@, 5, fl) {
        Some(mm) => crate::json::spec_str_leaf(l, mm.0, mm.1) == Some("codex/event/token_count"@),
        None => false,
    };
    if !is_codex {
        None
    } else {
        match crate::json::spec_obj_member(l, 0, "params"@, 5, fl) {
            Some(pm) => match crate::json::spec_obj_member(l, pm.0, "msg"@, 4, fl) {
                Some(mm) => match crate::json::spec_obj_member(l, mm.0, "info"@, 3, fl) {
                    Some(im) => match crate::json::spec_obj_member(
                        l,
                        im.0,
                        "last_token_usage"@,
                        2,
                        fl,
                    ) {
                        Some(lm) => match crate::json::spec_obj_member(
                            l,
                            lm.0,
                            "total_tokens"@,
                            1,
                            fl,
                        ) {
                            Some(tt) => match crate::json::spec_u32_leaf(l, tt.0, tt.1) {
                                Some(total) => Some(
                                    plain_usage(total, spec_codex_window(l, im.0)),
                                ),
                                None => None,
                            },
                            None => None,
                        },
                        None => None,
                    },
                    None => None,
                },
                None => None,
            },
            None => None,
        }
    }
}

/// The context window of a codex notification: the `info` member when
/// present and in range, else zero.
pub open spec fn spec_codex_window(l: Seq<char>, info: int) -> u32 {
    match crate::json::spec_obj_member(l, info, "model_context_window"@, 2, spec_line_fuel(l)) {
        Some(wm) => match crate::json::spec_u32_leaf(l, wm.0, wm.1) {
            Some(w) => w,
            None => 0,
        },
        None => 0,
    }
}

/// Read one compact event line for token usage; `r.0` says whether the
/// line has the compact form at all, and when it does, `r.1` is exactly
/// what the line reports.
pub fn read_usage_subset(cs: &Vec<char>) -> (r: (bool, Option<TokenUsageInfo>))
    ensures
        r.0 == spec_line_in_subset(cs@),
        r.0 ==> r.1 == spec_token_usage_of_line(cs@),
{
    let n: usize = cs.len();
    let ghost fl = spec_line_fuel(cs@);
    let in_subset: bool = if n == 0 {
        false
    } else {
        match crate::json::sub_value_end(cs, 0, SUBSET_NESTING) {
            Some(e) => e == n,
            None => false,
        }
    };
    if !in_subset {
        return (false, None);
    }
    let key_type: Vec<char> = str_to_chars("type");
    let key_total: Vec<char> = str_to_chars("total_tokens");
    let key_window: Vec<char> = str_to_chars("model_context_window");
    let plain: bool = match crate::json::obj_member(cs, 0, &key_type, 5) {
        Some(tm) => match crate::json::str_leaf(cs, tm.0, tm.1) {
            Some(w) => crate::text::chars_eq_str(&w, "token_usage"),
            None => false,
        },
        None => false,
    };
    if plain {
        let usage: Option<TokenUsageInfo> = match crate::json::obj_member(cs, 0, &key_total, 5) {
            Some(tt) => match crate::json::u32_leaf(cs, tt.0, tt.1) {
                Some(total) => match crate::json::obj_member(cs, 0, &key_window, 5) {
                    Some(wm) => match crate::json::u32_leaf(cs, wm.0, wm.1) {
                        Some(window) => Some(TokenUsageInfo {
                            total_tokens: total,
                            model_context_window: window,
                            input_tokens: None,
                            output_tokens: None,
                            cache_read_tokens: None,
                            is_estimated: false,
                        }),
                        None => None,
                    },
                    None => None,
                },
                None => None,
            },
            None => None,
        };
        return (true, usage);
    }
    let key_method: Vec<char> = str_to_chars("method");
    let is_codex: bool = match crate::json::obj_member(cs, 0, &key_method, 5) {
        Some(mm) => match crate::json::str_leaf(cs, mm.0, mm.1) {
            Some(w) => crate::text::chars_eq_str(&w, "codex/event/token_count"),
            None => false,
        },
        None => false,
    };
    if !is_codex {
        return (true, None);
    }
    let key_params: Vec<char> = str_to_chars("params");
    let pm = match crate::json::obj_member(cs, 0, &key_params, 5) {
        Some(p) => p,
        None => {
            return (true, None);
        },
    };
    let key_msg: Vec<char> = str_to_chars("msg");
    let inner_msg = crate::json::obj_member(cs, pm.0, &key_msg, 4);
    proof {
        crate::json::lemma_obj_member_fuel(
            cs@,
            pm.0 as int,
            "msg"@,
            4,
            (cs@.len() + 1 - pm.0) as nat,
            fl,
        );
    }
    let mm = match inner_msg {
        Some(m) => m,
        None => {
            return (true, None);
        },
    };
    let key_info: Vec<char> = str_to_chars("info");
    let inner_info = crate::json::obj_member(cs, mm.0, &key_info, 3);
    proof {
        crate::json::lemma_obj_member_fuel(
            cs@,
            mm.0 as int,
            "info"@,
            3,
            (cs@.len() + 1 - mm.0) as nat,
            fl,
        );
    }
    let im = match inner_info {
        Some(m) => m,
        None => {
            return (true, None);
        },
    };
    let key_ltu: Vec<char> = str_to_chars("last_token_usage");
    let inner_ltu = crate::json::obj_member(cs, im.0, &key_ltu, 2);
    proof {
        crate::json::lemma_obj_member_fuel(
            cs@,
            im.0 as int,
            "last_token_usage"@,
            2,
            (cs@.len() + 1 - im.0) as nat,
            fl,
        );
    }
    let lm = match inner_ltu {
        Some(m) => m,
        None => {
            return (true, None);
        },
    };
    let inner_total = crate::json::obj_member(cs, lm.0, &key_total, 1);
    proof {
        crate::json::lemma_obj_member_fuel(
            cs@,
            lm.0 as int,
            "total_tokens"@,
            1,
            (cs@.len() + 1 - lm.0) as nat,
            fl,
        );
    }
    let tt = match inner_total {
        Some(m) => m,
        None => {
            return (true, None);
        },
    };
    let total: u32 = match crate::json::u32_leaf(cs, tt.0, tt.1) {
        Some(t) => t,
        None => {
            return (true, None);
        },
    };
    let inner_window = crate::json::obj_member(cs, im.0, &key_window, 2);
    proof {
        crate::json::lemma_obj_member_fuel(
            cs@,
            im.0 as int,
            "model_context_window"@,
            2,
            (cs@.len() + 1 - im.0) as nat,
            fl,
        );
    }
    let window: u32 = match inner_window {
        Some(wm) => match crate::json::u32_leaf(cs, wm.0, wm.1) {
            Some(w) => w,
            None => 0,
        },
        None => 0,
    };
    (
        true,
        Some(TokenUsageInfo {
            total_tokens: total,
            model_context_window: window,
            input_tokens: None,
            output_tokens: None,
            cache_read_tokens: None,
            is_estimated: false,
        }),
    )
}

/// Read one executor stdout line for token usage. On the compact
/// event-line form the result is exactly what the line reports; other
/// text is handed to the general JSON reader.
pub fn parse_token_usage_from_stdout_line(line: &str) -> (r: Option<TokenUsageInfo>)
    ensures
        spec_line_in_subset(line@) ==> r == spec_token_usage_of_line(line@),
        r matches Some(u) ==> u.is_estimated == false,
{
    let cs: Vec<char> = str_to_chars(line);
    let (in_subset, usage) = read_usage_subset(&cs);
    if in_subset {
        return usage;
    }
    match crate::json::parse_json(line) {
        Some(v) => extract_token_usage(&v),
        None => None,
    }
}

/// The estimated usage recorded when no executor-reported count was
/// seen: prompt and reply measured by the byte-pair estimator.
pub fn estimate_token_usage(prompt: &str, latest_assistant: &str) -> (r: TokenUsageInfo)
    ensures
        r.input_tokens == Some(bpe_token_count(prompt@)),
        r.output_tokens == Some(bpe_token_count(latest_assistant@)),
        r.total_tokens == sat_add_u32(bpe_token_count(prompt@), bpe_token_count(latest_assistant@)),
        r.model_context_window == 0,
        r.is_estimated == true,
{
    let input: u32 = count_text_tokens(prompt);
    let output: u32 = count_text_tokens(latest_assistant);
    let total: u32 = if output > u32::MAX - input {
        u32::MAX
    } else {
        input + output
    };
    TokenUsageInfo {
        total_tokens: total,
        model_context_window: 0,
        input_tokens: Some(input),
        output_tokens: Some(output),
        cache_read_tokens: None,
        is_estimated: true,
    }
}

/// What remains buffered after a chunk of stdout: the text after the
/// last line feed.
pub open spec fn spec_tail_after_last_nl(s: Seq<char>) -> Seq<char>
    decreases s.len(),
{
    if s.len() == 0 {
        Seq::empty()
    } else if s.last() == '\n' {
        Seq::empty()
    } else {
        spec_tail_after_last_nl(s.drop_last()).push(s.last())
    }
}

proof fn lemma_tail_after_last_nl(s: Seq<char>, cut: int)
    requires
        0 <= cut <= s.len(),
        forall|m: int| cut <= m < s.len() ==> s[m] != '\n',
        cut == 0 || s[cut - 1] == '\n',
    ensures
        spec_tail_after_last_nl(s) == s.subrange(cut, s.len() as int),
    decreases s.len(),
{
    if s.len() == 0 {
        assert(s.subrange(0, 0) =~= Seq::<char>::empty());
    } else if s.last() == '\n' {
        assert(cut == s.len());
        assert(s.subrange(cut, s.len() as int) =~= Seq::<char>::empty());
    } else {
        assert(cut < s.len());
        lemma_tail_after_last_nl(s.drop_last(), cut);
        assert(s.drop_last().subrange(cut, s.len() - 1).push(s.last()) =~= s.subrange(
            cut,
            s.len() as int,
        ));
    }
}

/// Usage remembered after one complete raw line: a compact line that
/// reports a usage replaces the prior value (a trailing carriage return
/// is dropped first); everything else keeps it.
pub open spec fn spec_usage_step(
    prior: Option<TokenUsageInfo>,
    raw_line: Seq<char>,
) -> Option<TokenUsageInfo> {
    let line = if raw_line.len() > 0 && raw_line.last() == '\r' {
        raw_line.drop_last()
    } else {
        raw_line
    };
    if line.len() > 0 && spec_token_usage_of_line(line) is Some {
        spec_token_usage_of_line(line)
    } else {
        prior
    }
}

/// Usage remembered after scanning the terminated lines of `s`: the
/// cursor `i` walks the current line, which started at `start`; an
/// unterminated tail stays buffered and reports nothing yet.
pub open spec fn spec_usage_in_lines(
    s: Seq<char>,
    start: int,
    i: int,
    prior: Option<TokenUsageInfo>,
) -> Option<TokenUsageInfo>
    decreases s.len() - i + 1,
{
    if i < start || start < 0 || i < 0 {
        prior
    } else if i >= s.len() {
        prior
    } else if s[i] == '\n' {
        spec_usage_in_lines(s, i + 1, i + 1, spec_usage_step(prior, s.subrange(start, i)))
    } else {
        spec_usage_in_lines(s, start, i + 1, prior)
    }
}

proof fn lemma_usage_walk(s: Seq<char>, start: int, j: int, i: int, p: Option<TokenUsageInfo>)
    requires
        0 <= start <= j <= i <= s.len(),
        forall|m: int| j <= m < i ==> s[m] != '\n',
    ensures
        spec_usage_in_lines(s, start, j, p) == spec_usage_in_lines(s, start, i, p),
    decreases i - j,
{
    if j < i {
        lemma_usage_walk(s, start, j + 1, i, p);
    }
}

/// Feed one chunk of executor stdout into the line buffer: each
/// completed line is read for a token-usage report exactly as
/// `spec_usage_in_lines` scans it, and exactly the text after the last
/// line feed stays buffered.
pub fn update_token_usage_from_stdout_chunk(
    stdout_line_buffer: &mut String,
    last_token_usage: &mut Option<TokenUsageInfo>,
    chunk: &str,
)
    ensures
        final(stdout_line_buffer)@ == spec_tail_after_last_nl(old(stdout_line_buffer)@ + chunk@),
        *final(last_token_usage) == spec_usage_in_lines(
            old(stdout_line_buffer)@ + chunk@,
            0,
            0,
            *old(last_token_usage),
        ),
{
    let mut combined: Vec<char> = str_to_chars(stdout_line_buffer.as_str());
    let chunk_chars: Vec<char> = str_to_chars(chunk);
    crate::context::append_chars(&mut combined, &chunk_chars);
    let n: usize = combined.len();
    let mut cut: usize = n;
    loop
        invariant_except_break
            cut <= n,
            n == combined@.len(),
            forall|m: int| cut <= m < n ==> combined@[m] != '\n',
        ensures
            cut <= n,
            n == combined@.len(),
            forall|m: int| cut <= m < n ==> combined@[m] != '\n',
            cut == 0 || combined@[cut - 1] == '\n',
        decreases cut,
    {
        if cut == 0 {
            break;
        }
        if combined[cut - 1] == '\n' {
            break;
        }
        cut -= 1;
    }
    proof {
        lemma_tail_after_last_nl(combined@, cut as int);
    }

    // scan the complete lines for token-usage reports
    let ghost comb = combined@;
    let ghost prior0 = *last_token_usage;
    let mut start: usize = 0;
    while start < cut
        invariant
            start <= cut <= n,
            n == combined@.len(),
            comb == combined@,
            comb == old(stdout_line_buffer)@ + chunk@,
            cut == 0 || combined@[cut - 1] == '\n',
            forall|m: int| cut <= m < n ==> combined@[m] != '\n',
            spec_usage_in_lines(comb, 0, 0, prior0) == spec_usage_in_lines(
                comb,
                start as int,
                start as int,
                *last_token_usage,
            ),
        decreases cut - start,
    {
        let mut e: usize = start;
        loop
            invariant_except_break
                start <= e <= cut <= n,
                n == combined@.len(),
                comb == combined@,
                forall|m: int| start <= m < e ==> combined@[m] != '\n',
            ensures
                start <= e <= cut <= n,
                n == combined@.len(),
                forall|m: int| start <= m < e ==> combined@[m] != '\n',
                e == cut || combined@[e as int] == '\n',
            decreases cut - e,
        {
            if e == cut {
                break;
            }
            if combined[e] == '\n' {
                break;
            }
            e += 1;
        }
        assert(e < cut) by {
            if e == cut {
                assert(combined@[cut - 1] != '\n');
            }
        }
        let ghost cur = *last_token_usage;
        let ghost raw = comb.subrange(start as int, e as int);
        proof {
            lemma_usage_walk(comb, start as int, start as int, e as int, cur);
            assert(spec_usage_in_lines(comb, start as int, e as int, cur)
                == spec_usage_in_lines(
                comb,
                e as int + 1,
                e as int + 1,
                spec_usage_step(cur, raw),
            ));
        }
        let mut line_end: usize = e;
        if line_end > start && combined[line_end - 1] == '\r' {
            line_end -= 1;
        }
        let ghost line = if raw.len() > 0 && raw.last() == '\r' {
            raw.drop_last()
        } else {
            raw
        };
        proof {
            assert(comb.subrange(start as int, line_end as int) =~= line);
        }
        if line_end > start {
            let line_chars: Vec<char> = crate::text::copy_range(&combined, start, line_end);
            let (in_subset, usage) = read_usage_subset(&line_chars);
            if in_subset {
                match usage {
                    Some(u) => {
                        *last_token_usage = Some(u);
                    },
                    None => {},
                }
            }
            proof {
                assert(*last_token_usage == spec_usage_step(cur, raw));
            }
        } else {
            proof {
                assert(line.len() == 0);
                assert(*last_token_usage == spec_usage_step(cur, raw));
            }
        }
        start = e + 1;
    }
    proof {
        lemma_usage_walk(comb, start as int, start as int, n as int, *last_token_usage);
    }

    let tail_chars: Vec<char> = crate::text::copy_range(&combined, cut, n);
    *stdout_line_buffer = chars_to_string(&tail_chars);
}

/// The buffered text with its trailing line feeds and carriage
/// returns removed.
pub open spec fn spec_flush_trim(s: Seq<char>) -> Seq<char>
    decreases s.len(),
{
    if s.len() > 0 && (s.last() == '\n' || s.last() == '\r') {
        spec_flush_trim(s.drop_last())
    } else {
        s
    }
}

proof fn lemma_flush_trim_exact(s: Seq<char>, end: int)
    requires
        0 <= end <= s.len(),
        forall|m: int| end <= m < s.len() ==> s[m] == '\n' || s[m] == '\r',
        end == 0 || !(s[end - 1] == '\n' || s[end - 1] == '\r'),
    ensures
        spec_flush_trim(s) == s.subrange(0, end),
    decreases s.len(),
{
    if s.len() == 0 {
        assert(s.subrange(0, 0) =~= s);
    } else if s.last() == '\n' || s.last() == '\r' {
        assert(end < s.len());
        lemma_flush_trim_exact(s.drop_last(), end);
        assert(s.drop_last().subrange(0, end) =~= s.subrange(0, end));
    } else {
        assert(end == s.len());
        assert(s.subrange(0, s.len() as int) =~= s);
    }
}

/// Flush the line buffer at the end of a run: the final line, stripped
/// of trailing line feeds and carriage returns, is read for a
/// token-usage report exactly as `spec_usage_step` does; the buffer
/// empties.
pub fn flush_token_usage_buffer(
    stdout_line_buffer: &mut String,
    last_token_usage: &mut Option<TokenUsageInfo>,
)
    ensures
        final(stdout_line_buffer)@ == Seq::<char>::empty(),
        ({
            let t = spec_flush_trim(old(stdout_line_buffer)@);
            *final(last_token_usage) == if t.len() > 0 && spec_token_usage_of_line(t) is Some {
                spec_token_usage_of_line(t)
            } else {
                *old(last_token_usage)
            }
        }),
{
    let chars: Vec<char> = str_to_chars(stdout_line_buffer.as_str());
    let n: usize = chars.len();
    let mut end: usize = n;
    loop
        invariant_except_break
            end <= n,
            n == chars@.len(),
            chars@ == old(stdout_line_buffer)@,
            forall|m: int| end <= m < n ==> chars@[m] == '\n' || chars@[m] == '\r',
        ensures
            end <= n,
            n == chars@.len(),
            forall|m: int| end <= m < n ==> chars@[m] == '\n' || chars@[m] == '\r',
            end == 0 || !(chars@[end - 1] == '\n' || chars@[end - 1] == '\r'),
        decreases end,
    {
        if end == 0 {
            break;
        }
        let c: char = chars[end - 1];
        if c == '\n' || c == '\r' {
            end -= 1;
        } else {
            break;
        }
    }
    proof {
        lemma_flush_trim_exact(chars@, end as int);
    }
    if end > 0 {
        let line_chars: Vec<char> = crate::text::copy_range(&chars, 0, end);
        let (in_subset, usage) = read_usage_subset(&line_chars);
        if in_subset {
            match usage {
                Some(u) => {
                    *last_token_usage = Some(u);
                },
                None => {},
            }
        }
    }
    *stdout_line_buffer = String::new();
}

// ------------------------------------------------------------------
// Exit arbitration
// ------------------------------------------------------------------

/// The one-shot state deciding who announces a run's end.
#[derive(Clone, Copy, Debug, PartialEq, Eq, Structural)]
pub struct ExitTracker {
    /// A Finished announcement has been made.
    pub finished_sent: bool,
    /// The announcement came from the executor's exit signal.
    pub finished_from_signal: bool,
    /// The run was cancelled manually.
    pub manually_cancelled: bool,
}

impl ExitTracker {
    /// Fresh tracker for a new run.
    pub fn new() -> (r: ExitTracker)
        ensures
            !r.finished_sent,
            !r.finished_from_signal,
            !r.manually_cancelled,
    {
        ExitTracker { finished_sent: false, finished_from_signal: false, manually_cancelled: false }
    }

    /// A manual stop: later completions must stay silent.
    pub fn on_cancel(self) -> (r: ExitTracker)
        ensures
            r.manually_cancelled,
            r.finished_sent == self.finished_sent,
            r.finished_from_signal == self.finished_from_signal,
    {
        ExitTracker { manually_cancelled: true, ..self }
    }

    /// The operating system reported the child gone. Finished is
    /// announced exactly when nobody announced it before.
    pub fn on_child_exit(self) -> (r: (ExitTracker, bool))
        ensures
            r.1 == !self.finished_sent,
            r.0.finished_sent,
            r.0.finished_from_signal == self.finished_from_signal,
            r.0.manually_cancelled == self.manually_cancelled,
    {
        (ExitTracker { finished_sent: true, ..self }, !self.finished_sent)
    }

    /// The executor's exit signal arrived. After a manual stop the
    /// signal is ignored entirely — no Finished, no state change;
    /// otherwise Finished is announced exactly when nobody announced it
    /// before.
    pub fn on_exit_signal(self) -> (r: (ExitTracker, bool))
        ensures
            self.manually_cancelled ==> r.0 == self && r.1 == false,
            !self.manually_cancelled ==> {
                &&& r.1 == !self.finished_sent
                &&& r.0.finished_sent
                &&& r.0.finished_from_signal
                &&& r.0.manually_cancelled == self.manually_cancelled
            },
    {
        if self.manually_cancelled {
            (self, false)
        } else {
            (ExitTracker { finished_sent: true, finished_from_signal: true, ..self }, true
                && !self.finished_sent)
        }
    }
}

/// Only one Finished is ever announced for a run: each announcement
/// requires the flag to have been clear and sets it, and the flag never
/// clears, so two announcements cannot both happen.
pub proof fn lemma_single_finished(sent: Seq<bool>, announced: Seq<bool>)
    requires
        sent.len() == announced.len() + 1,
        forall|i: int| 0 <= i < announced.len() ==> #[trigger] announced[i] ==> !sent[i] && sent[i + 1],
        forall|i: int| 0 <= i < announced.len() ==> #[trigger] sent[i] ==> sent[i + 1],
    ensures
        forall|i: int, j: int|
            0 <= i < j < announced.len() ==> !((#[trigger] announced[i]) && (#[trigger] announced[j])),
{
    assert forall|i: int, j: int|
        0 <= i < j < announced.len() && announced[i] implies !announced[j] by {
        lemma_sent_monotone(sent, announced, i + 1, j);
    }
}

proof fn lemma_sent_monotone(sent: Seq<bool>, announced: Seq<bool>, i: int, j: int)
    requires
        sent.len() == announced.len() + 1,
        forall|k: int| 0 <= k < announced.len() ==> #[trigger] sent[k] ==> sent[k + 1],
        0 <= i <= j < sent.len(),
        sent[i],
    ensures
        sent[j],
    decreases j - i,
{
    if i < j {
        lemma_sent_monotone(sent, announced, i + 1, j);
    }
}

// ------------------------------------------------------------------
// Git capture decisions
// ------------------------------------------------------------------

/// A porcelain status line reports a tracked change when its trimmed
/// text is non-empty and does not open with `??`.
pub open spec fn spec_line_reports_tracked(line: Seq<char>) -> bool {
    let t = crate::mentions::trimmed(line);
    t.len() > 0 && !crate::text::matches_at(t, 0, "??"@)
}

/// Some line of the porcelain output in `[start, i)`-split form reports
/// a tracked change.
pub open spec fn spec_has_tracked_changes(s: Seq<char>, start: int, i: int) -> bool
    decreases s.len() - i + 1,
{
    if i < start || i < 0 || start < 0 {
        false
    } else if i >= s.len() {
        spec_line_reports_tracked(s.subrange(start, s.len() as int))
    } else if s[i] == '\n' {
        spec_line_reports_tracked(s.subrange(start, i)) || spec_has_tracked_changes(s, i + 1, i + 1)
    } else {
        spec_has_tracked_changes(s, start, i + 1)
    }
}

fn line_reports_tracked(line: &Vec<char>) -> (r: bool)
    ensures
        r == spec_line_reports_tracked(line@),
{
    let t: Vec<char> = crate::mentions::trim_chars(line);
    if t.len() == 0 {
        return false;
    }
    let marker: Vec<char> = str_to_chars("??");
    proof {
        reveal_strlit("??");
        assert(marker@.len() == 2);
    }
    if marker.len() <= t.len() && crate::text::range_eq(&t, 0, &marker) {
        return false;
    }
    assert(!crate::text::matches_at(t@, 0, "??"@));
    true
}

/// Decide from `git status --porcelain` output whether the work tree
/// has tracked changes worth a diff capture: some line, trimmed, is
/// non-empty and is not an untracked (`??`) entry.
pub fn porcelain_has_tracked_changes(status_text: &str) -> (r: bool)
    ensures
        r == spec_has_tracked_changes(status_text@, 0, 0),
{
    let cs: Vec<char> = str_to_chars(status_text);
    let n: usize = cs.len();
    let mut start: usize = 0;
    let mut i: usize = 0;
    while i < n
        invariant
            start <= i <= n,
            n == cs@.len(),
            cs@ == status_text@,
            spec_has_tracked_changes(status_text@, 0, 0) == spec_has_tracked_changes(
                status_text@,
                start as int,
                i as int,
            ),
        decreases n - i,
    {
        if cs[i] == '\n' {
            let line: Vec<char> = crate::text::copy_range(&cs, start, i);
            if line_reports_tracked(&line) {
                return true;
            }
            start = i + 1;
        }
        i += 1;
    }
    let line: Vec<char> = crate::text::copy_range(&cs, start, n);
    line_reports_tracked(&line)
}

// ------------------------------------------------------------------
// Summary extraction
// ------------------------------------------------------------------

/// The content stored under the greatest entry index, scanning from `i`
/// with the best candidate so far.
pub open spec fn spec_latest_entry(
    entries: Seq<(usize, String)>,
    i: int,
    best: Option<(usize, Seq<char>)>,
) -> Option<(usize, Seq<char>)>
    decreases entries.len() - i,
{
    if i < 0 || i >= entries.len() {
        best
    } else {
        let keep = match best {
            Some(b) => entries[i].0 > b.0,
            None => true,
        };
        spec_latest_entry(
            entries,
            i + 1,
            if keep {
                Some((entries[i].0, entries[i].1@))
            } else {
                best
            },
        )
    }
}

/// The assistant text a finished summarization run produced: the entry
/// with the greatest stream index, trimmed; nothing when no entry was
/// seen or the trimmed text is empty.
pub fn extract_latest_assistant(entries: &Vec<(usize, String)>) -> (r: Option<String>)
    ensures
        match spec_latest_entry(entries@, 0, None) {
            Some(b) => if crate::mentions::trimmed(b.1).len() > 0 {
                r is Some && r->Some_0@ == crate::mentions::trimmed(b.1)
            } else {
                r is None
            },
            None => r is None,
        },
{
    let mut best: Option<(usize, String)> = None;
    let mut i: usize = 0;
    while i < entries.len()
        invariant
            i <= entries@.len(),
            spec_latest_entry(entries@, 0, None) == spec_latest_entry(
                entries@,
                i as int,
                match best {
                    Some(b) => Some((b.0, b.1@)),
                    None => None,
                },
            ),
        decreases entries@.len() - i,
    {
        let keep: bool = match &best {
            Some(b) => entries[i].0 > b.0,
            None => true,
        };
        if keep {
            best = Some((entries[i].0, entries[i].1.clone()));
        }
        i += 1;
    }
    match best {
        Some(b) => {
            let chars: Vec<char> = str_to_chars(b.1.as_str());
            let t: Vec<char> = crate::mentions::trim_chars(&chars);
            if t.len() == 0 {
                None
            } else {
                Some(chars_to_string(&t))
            }
        },
        None => None,
    }
}

// ------------------------------------------------------------------
// Failure reporting
// ------------------------------------------------------------------

/// A failure reason compacted to one line: each line trimmed, empty
/// lines dropped, the rest joined by single spaces; `Unknown error`
/// when nothing remains.
pub open spec fn spec_compact_reason(s: Seq<char>) -> Seq<char> {
    let joined = spec_join_lines(s, 0, 0, Seq::empty());
    if joined.len() == 0 {
        "Unknown error"@
    } else {
        joined
    }
}

/// Walk the text splitting at newlines, trimming each piece, and
/// joining the non-empty pieces with single spaces.
pub open spec fn spec_join_lines(s: Seq<char>, start: int, i: int, acc: Seq<char>) -> Seq<char>
    decreases s.len() - i + 1,
{
    if i < start || i < 0 || start < 0 {
        acc
    } else if i >= s.len() {
        spec_join_piece(acc, crate::mentions::trimmed(s.subrange(start, s.len() as int)))
    } else if s[i] == '\n' {
        spec_join_lines(
            s,
            i + 1,
            i + 1,
            spec_join_piece(acc, crate::mentions::trimmed(s.subrange(start, i))),
        )
    } else {
        spec_join_lines(s, start, i + 1, acc)
    }
}

pub open spec fn spec_join_piece(acc: Seq<char>, piece: Seq<char>) -> Seq<char> {
    if piece.len() == 0 {
        acc
    } else if acc.len() == 0 {
        piece
    } else {
        acc + " "@ + piece
    }
}

fn join_piece_into(acc: Vec<char>, piece: Vec<char>) -> (r: Vec<char>)
    ensures
        r@ == spec_join_piece(acc@, piece@),
{
    if piece.len() == 0 {
        acc
    } else if acc.len() == 0 {
        piece
    } else {
        let mut a: Vec<char> = acc;
        let ghost base = a@;
        a.push(' ');
        crate::context::append_chars(&mut a, &piece);
        proof {
            reveal_strlit(" ");
            assert(a@ =~= base + " "@ + piece@);
        }
        a
    }
}

/// Compact a failure reason for display in a system message.
pub fn compact_failure_reason(reason: &str) -> (r: String)
    ensures
        r@ == spec_compact_reason(reason@),
{
    let cs: Vec<char> = str_to_chars(reason);
    let n: usize = cs.len();
    let mut acc: Vec<char> = Vec::new();
    let mut start: usize = 0;
    let mut i: usize = 0;
    assert(acc@ =~= Seq::<char>::empty());
    while i < n
        invariant
            start <= i <= n,
            n == cs@.len(),
            cs@ == reason@,
            spec_join_lines(reason@, 0, 0, Seq::empty()) == spec_join_lines(
                reason@,
                start as int,
                i as int,
                acc@,
            ),
        decreases n - i,
    {
        if cs[i] == '\n' {
            let piece_raw: Vec<char> = crate::text::copy_range(&cs, start, i);
            let piece: Vec<char> = crate::mentions::trim_chars(&piece_raw);
            acc = join_piece_into(acc, piece);
            start = i + 1;
        }
        i += 1;
    }
    let piece_raw: Vec<char> = crate::text::copy_range(&cs, start, n);
    let piece: Vec<char> = crate::mentions::trim_chars(&piece_raw);
    acc = join_piece_into(acc, piece);
    assert(acc@ == spec_join_lines(reason@, 0, 0, Seq::empty()));
    if acc.len() == 0 {
        "Unknown error".to_owned()
    } else {
        chars_to_string(&acc)
    }
}

/// The system message announcing a failed mention:
/// `Agent "<name>" failed to execute this mention: <reason>`.
pub open spec fn spec_mention_failure_text(agent_name: Seq<char>, compact: Seq<char>) -> Seq<char> {
    "Agent \""@ + agent_name + "\" failed to execute this mention: "@ + compact
}

/// Render the system message reporting a failed mention.
pub fn mention_failure_text(agent_name: &str, reason: &str) -> (r: String)
    ensures
        r@ == spec_mention_failure_text(agent_name@, spec_compact_reason(reason@)),
{
    let compact: String = compact_failure_reason(reason);
    let mut out: String = "Agent \"".to_owned();
    out.append(agent_name);
    out.append("\" failed to execute this mention: ");
    out.append(compact.as_str());
    out
}

} // verus!

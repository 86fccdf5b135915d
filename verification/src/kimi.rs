//! Command construction and stream-text extraction for the Kimi coding
//! assistant.
//!
//! The executor emits JSON events; the functions here decide the command
//! line to spawn and how assistant text accumulates across events. The
//! subprocess itself, and the forwarding of its raw output, live outside
//! the crate.

use vstd::prelude::*;

use crate::json::{spec_as_str, spec_get, JsonValue};
use crate::text::str_eq;

verus! {

/// Configuration of the Kimi executor.
#[derive(Debug)]
pub struct KimiCode {
    /// Extra text appended to every prompt.
    pub append_prompt: Option<String>,
    /// Model override.
    pub model: Option<String>,
    /// Skip confirmation prompts.
    pub yolo: Option<bool>,
    /// Base command override.
    pub base_command_override: Option<String>,
    /// Extra command-line parameters.
    pub additional_params: Vec<String>,
}

/// The text of a raw executor line with its terminal escape sequences
/// removed; a function of the characters alone.
pub uninterp spec fn ansi_stripped(s: Seq<char>) -> Seq<char>;

/// Relies on strip_ansi_escapes::strip_str: removes ANSI escape
/// sequences from the text, a function of the characters alone.
#[verifier::external_body]
pub fn strip_ansi(s: &str) -> (r: String)
    ensures
        r@ == ansi_stripped(s@),
{
    strip_ansi_escapes::strip_str(s)
}

/// The continuation handle meaning "resume the most recent session".
pub open spec fn spec_session_sentinel() -> Seq<char> {
    "KIMI_CONTINUE"@
}

impl KimiCode {
    /// The executable the Kimi executor runs.
    pub fn base_command() -> (r: &'static str)
        ensures
            r@ == "kimi"@,
    {
        "kimi"
    }

    /// The arguments of a fresh run: print mode with stream-JSON
    /// output, the model and yolo flags when configured, then any extra
    /// parameters.
    pub open spec fn spec_initial_args(self) -> Seq<Seq<char>> {
        let base = seq!["--print"@, "--output-format"@, "stream-json"@];
        let with_model = match self.model {
            Some(m) => base + seq!["--model"@, m@],
            None => base,
        };
        let with_yolo = if self.yolo == Some(true) {
            with_model + seq!["--yolo"@]
        } else {
            with_model
        };
        with_yolo + self.additional_params@.map_values(|p: String| p@)
    }

    /// Build the argument list for a fresh run.
    pub fn build_initial_args(&self) -> (r: Vec<String>)
        ensures
            crate::mentions::string_views(r@) == self.spec_initial_args(),
    {
        let mut args: Vec<String> = Vec::new();
        args.push("--print".to_owned());
        args.push("--output-format".to_owned());
        args.push("stream-json".to_owned());
        if let Some(m) = &self.model {
            args.push("--model".to_owned());
            args.push(m.clone());
        }
        let yolo_set: bool = match self.yolo {
            Some(b) => b,
            None => false,
        };
        if yolo_set {
            args.push("--yolo".to_owned());
        }
        let ghost base_so_far = crate::mentions::string_views(args@);
        proof {
            let base = seq!["--print"@, "--output-format"@, "stream-json"@];
            let with_model = match &self.model {
                Some(m) => base + seq!["--model"@, m@],
                None => base,
            };
            let with_yolo = if self.yolo == Some(true) {
                with_model + seq!["--yolo"@]
            } else {
                with_model
            };
            assert(base_so_far =~= with_yolo);
        }
        let mut i: usize = 0;
        while i < self.additional_params.len()
            invariant
                i <= self.additional_params@.len(),
                crate::mentions::string_views(args@) == base_so_far
                    + self.additional_params@.map_values(|p: String| p@).subrange(0, i as int),
            decreases self.additional_params@.len() - i,
        {
            args.push(self.additional_params[i].clone());
            proof {
                let all = self.additional_params@.map_values(|p: String| p@);
                assert(crate::mentions::string_views(args@) =~= (base_so_far + all.subrange(
                    0,
                    i as int,
                )).push(all[i as int]));
                assert((base_so_far + all.subrange(0, i as int)).push(all[i as int]) =~= base_so_far
                    + all.subrange(0, i as int + 1));
            }
            i += 1;
        }
        proof {
            let all = self.additional_params@.map_values(|p: String| p@);
            assert(all.subrange(0, all.len() as int) =~= all);
            assert(crate::mentions::string_views(args@) =~= self.spec_initial_args());
        }
        args
    }

    /// The extra arguments of a follow-up run: `--continue` for the
    /// sentinel handle, else `--session <handle>`.
    pub open spec fn spec_follow_up_args(session_id: Seq<char>) -> Seq<Seq<char>> {
        if session_id == spec_session_sentinel() {
            seq!["--continue"@]
        } else {
            seq!["--session"@, session_id]
        }
    }

    /// Build the extra arguments of a follow-up run.
    pub fn build_follow_up_args(session_id: &String) -> (r: Vec<String>)
        ensures
            crate::mentions::string_views(r@) == KimiCode::spec_follow_up_args(session_id@),
    {
        let mut args: Vec<String> = Vec::new();
        if str_eq(session_id.as_str(), "KIMI_CONTINUE") {
            args.push("--continue".to_owned());
            assert(crate::mentions::string_views(args@) =~= seq!["--continue"@]);
        } else {
            args.push("--session".to_owned());
            args.push(session_id.clone());
            assert(crate::mentions::string_views(args@) =~= seq!["--session"@, session_id@]);
        }
        args
    }

    /// The event type of a payload — its `type` field, else its `role`
    /// field, else empty — and whether the payload wraps its message in
    /// a `message` member.
    pub open spec fn spec_event_type(payload: JsonValue) -> Seq<char> {
        match spec_get(payload, "type"@) {
            Some(t) => match spec_as_str(t) {
                Some(s) => s,
                None => KimiCode::spec_role_or_empty(payload),
            },
            None => KimiCode::spec_role_or_empty(payload),
        }
    }

    pub open spec fn spec_role_or_empty(payload: JsonValue) -> Seq<char> {
        match spec_get(payload, "role"@) {
            Some(t) => match spec_as_str(t) {
                Some(s) => s,
                None => Seq::empty(),
            },
            None => Seq::empty(),
        }
    }

    /// The event type and message body of a stream payload: the type is
    /// the `type` field or else the `role` field; the message is the
    /// `message` member when present, else the payload itself.
    pub fn extract_event_type_and_message<'a>(payload: &'a JsonValue) -> (r: (String, &'a JsonValue))
        ensures
            r.0@ == KimiCode::spec_event_type(*payload),
            match spec_get(*payload, "message"@) {
                Some(m) => *r.1 == m,
                None => *r.1 == *payload,
            },
    {
        let event_type: String = match payload.get("type") {
            Some(t) => match t.as_str() {
                Some(s) => s.clone(),
                None => KimiCode::role_or_empty(payload),
            },
            None => KimiCode::role_or_empty(payload),
        };
        let message: &JsonValue = match payload.get("message") {
            Some(m) => m,
            None => payload,
        };
        (event_type, message)
    }

    fn role_or_empty(payload: &JsonValue) -> (r: String)
        ensures
            r@ == KimiCode::spec_role_or_empty(*payload),
    {
        match payload.get("role") {
            Some(t) => match t.as_str() {
                Some(s) => s.clone(),
                None => String::new(),
            },
            None => String::new(),
        }
    }

    /// Text carried by one part of an array-form content: the part
    /// itself when it is a string, else its `text` member, else its
    /// `content` member, else nothing.
    pub open spec fn spec_part_text(part: JsonValue) -> Seq<char> {
        match spec_as_str(part) {
            Some(s) => s,
            None => match spec_get(part, "text"@) {
                Some(t) => match spec_as_str(t) {
                    Some(s) => s,
                    None => KimiCode::spec_part_content(part),
                },
                None => KimiCode::spec_part_content(part),
            },
        }
    }

    pub open spec fn spec_part_content(part: JsonValue) -> Seq<char> {
        match spec_get(part, "content"@) {
            Some(t) => match spec_as_str(t) {
                Some(s) => s,
                None => Seq::empty(),
            },
            None => Seq::empty(),
        }
    }

    /// Concatenated text of the first `k` parts.
    pub open spec fn spec_parts_text(parts: Seq<JsonValue>, k: int) -> Seq<char>
        decreases k,
    {
        if k <= 0 {
            Seq::empty()
        } else {
            KimiCode::spec_parts_text(parts, k - 1) + KimiCode::spec_part_text(parts[k - 1])
        }
    }

    /// The assistant text of a message: its string `content`, or the
    /// concatenated texts of its array `content` parts, else empty.
    pub open spec fn spec_assistant_text(message: JsonValue) -> Seq<char> {
        match spec_get(message, "content"@) {
            Some(content) => match content {
                JsonValue::Str(s) => s@,
                JsonValue::Arr(parts) => KimiCode::spec_parts_text(parts@, parts@.len() as int),
                _ => Seq::empty(),
            },
            None => Seq::empty(),
        }
    }

    fn part_text(part: &JsonValue) -> (r: String)
        ensures
            r@ == KimiCode::spec_part_text(*part),
    {
        match part.as_str() {
            Some(s) => {
                return s.clone();
            },
            None => {},
        }
        match part.get("text") {
            Some(t) => match t.as_str() {
                Some(s) => {
                    return s.clone();
                },
                None => {},
            },
            None => {},
        }
        match part.get("content") {
            Some(t) => match t.as_str() {
                Some(s) => {
                    return s.clone();
                },
                None => {},
            },
            None => {},
        }
        String::new()
    }

    /// Extract the assistant text of one stream message.
    pub fn extract_assistant_text(message: &JsonValue) -> (r: String)
        ensures
            r@ == KimiCode::spec_assistant_text(*message),
    {
        let content: &JsonValue = match message.get("content") {
            Some(c) => c,
            None => {
                return String::new();
            },
        };
        match content {
            JsonValue::Str(s) => s.clone(),
            JsonValue::Arr(parts) => {
                let mut out: String = String::new();
                let mut i: usize = 0;
                while i < parts.len()
                    invariant
                        i <= parts@.len(),
                        out@ == KimiCode::spec_parts_text(parts@, i as int),
                    decreases parts@.len() - i,
                {
                    let piece: String = KimiCode::part_text(&parts[i]);
                    out.append(piece.as_str());
                    i += 1;
                }
                out
            },
            _ => String::new(),
        }
    }

    /// How streamed assistant text accumulates: a grown snapshot
    /// replaces the old text, a repeated tail is dropped, anything else
    /// is appended.
    pub open spec fn spec_merged_text(current: Seq<char>, incoming: Seq<char>) -> Seq<char> {
        if current.len() == 0 {
            incoming
        } else if current.is_prefix_of(incoming) {
            incoming
        } else if incoming.is_suffix_of(current) {
            current
        } else {
            current + incoming
        }
    }

    /// The display text of a stream line that is not JSON: the line with
    /// its escape sequences removed, published as a system message.
    pub fn system_entry_text(line: &str) -> (r: String)
        ensures
            r@ == ansi_stripped(line@),
    {
        strip_ansi(line)
    }

    /// Merge one incoming assistant snapshot into the accumulated text.
    pub fn merge_assistant_text(current: &String, incoming: &String) -> (r: String)
        ensures
            r@ == KimiCode::spec_merged_text(current@, incoming@),
    {
        if current.as_str().is_empty() {
            return incoming.clone();
        }
        let cur_chars: Vec<char> = crate::text::str_to_chars(current.as_str());
        let inc_chars: Vec<char> = crate::text::str_to_chars(incoming.as_str());
        if cur_chars.len() <= inc_chars.len() && crate::text::range_eq(&inc_chars, 0, &cur_chars) {
            proof {
                assert(incoming@.take(current@.len() as int) =~= incoming@.subrange(
                    0,
                    current@.len() as int,
                ));
            }
            return incoming.clone();
        }
        assert(!current@.is_prefix_of(incoming@)) by {
            if current@.is_prefix_of(incoming@) {
                assert(incoming@.subrange(0, current@.len() as int) =~= incoming@.take(
                    current@.len() as int,
                ));
            }
        }
        if inc_chars.len() <= cur_chars.len() && crate::text::range_eq(
            &cur_chars,
            cur_chars.len() - inc_chars.len(),
            &inc_chars,
        ) {
            proof {
                assert(current@.skip(current@.len() - incoming@.len()) =~= current@.subrange(
                    current@.len() - incoming@.len(),
                    current@.len() as int,
                ));
            }
            return current.clone();
        }
        assert(!incoming@.is_suffix_of(current@)) by {
            if incoming@.is_suffix_of(current@) {
                assert(current@.subrange(
                    current@.len() - incoming@.len(),
                    current@.len() as int,
                ) =~= current@.skip(current@.len() - incoming@.len()));
            }
        }
        let mut next: String = current.clone();
        next.append(incoming.as_str());
        next
    }
}

} // verus!

//! Token-budgeted history compression, memoized by fingerprint.
//!
//! When a session's history exceeds the token threshold, the oldest
//! prefix holding roughly the configured percentage of tokens is replaced
//! by a single summary message: an AI summary when one was obtained and
//! it actually shrinks the history, else a truncation marker pointing at
//! a cutoff file. Results are cached: an unchanged history returns the
//! stored result bytes, and a history that only grew at the tail reuses
//! the stored compacted prefix as its base.

use vstd::prelude::*;

use crate::context::{clone_messages, message_views, SimplifiedMessage, SimplifiedMessageView};
use crate::summary::spec_padded_tokens;
use crate::text::{chars_to_string, str_to_chars, u64_to_dec, dec_digits};
use crate::tokens::{
    estimate_token_count, message_token_count, sat_add_u32, spec_total_tokens,
};

verus! {

/// Default token threshold for compression.
pub const DEFAULT_TOKEN_THRESHOLD: u32 = 10000000;

/// Default percentage of tokens to compress away.
pub const DEFAULT_COMPRESSION_PERCENTAGE: u8 = 25;

#[derive(Clone, Copy, Debug, PartialEq, Eq, Structural)]
pub enum CompressionType {
    /// No compression needed, messages were under threshold.
    Unchanged,
    /// AI summarization succeeded and shrank the history.
    AiSummarized,
    /// All agents failed; messages were truncated to a cutoff file.
    Truncated,
}

/// Warning generated when compression falls back to truncation.
#[derive(Debug)]
pub struct CompressionWarning {
    /// Warning code for programmatic handling.
    pub code: String,
    /// Human-readable warning message.
    pub message: String,
    /// Path to the cutoff file holding the archived messages.
    pub split_file_path: String,
}

/// Mathematical value of a compression warning.
pub struct CompressionWarningView {
    pub code: Seq<char>,
    pub message: Seq<char>,
    pub split_file_path: Seq<char>,
}

impl View for CompressionWarning {
    type V = CompressionWarningView;

    open spec fn view(&self) -> CompressionWarningView {
        CompressionWarningView {
            code: self.code@,
            message: self.message@,
            split_file_path: self.split_file_path@,
        }
    }
}

impl Clone for CompressionWarning {
    fn clone(&self) -> (r: Self)
        ensures
            r@ == self@,
    {
        CompressionWarning {
            code: self.code.clone(),
            message: self.message.clone(),
            split_file_path: self.split_file_path.clone(),
        }
    }
}

/// Result of the message compression process.
#[derive(Debug)]
pub struct CompressionResult {
    /// The messages after compression (with summary, or truncated).
    pub messages: Vec<SimplifiedMessage>,
    /// Type of compression that was applied.
    pub compression_type: CompressionType,
    /// Warning if compression failed and fallback was used.
    pub warning: Option<CompressionWarning>,
}

/// Mathematical value of a compression result.
pub struct CompressionResultView {
    pub messages: Seq<SimplifiedMessageView>,
    pub compression_type: CompressionType,
    pub warning: Option<CompressionWarningView>,
}

impl View for CompressionResult {
    type V = CompressionResultView;

    open spec fn view(&self) -> CompressionResultView {
        CompressionResultView {
            messages: message_views(self.messages@),
            compression_type: self.compression_type,
            warning: match self.warning {
                Some(w) => Some(w@),
                None => None,
            },
        }
    }
}

impl Clone for CompressionResult {
    fn clone(&self) -> (r: Self)
        ensures
            r@ == self@,
    {
        CompressionResult {
            messages: clone_messages(&self.messages),
            compression_type: self.compression_type,
            warning: match &self.warning {
                Some(w) => Some(w.clone()),
                None => None,
            },
        }
    }
}

/// One memoized compression outcome for a session.
#[derive(Debug)]
pub struct CompressionCacheEntry {
    pub source_fingerprint: u64,
    pub source_message_count: usize,
    pub token_threshold: u32,
    pub compression_percentage: u8,
    pub source_token_count: u32,
    pub effective_token_count: u32,
    pub result: CompressionResult,
}

/// Mathematical value of a cache entry.
pub struct CompressionCacheEntryView {
    pub source_fingerprint: u64,
    pub source_message_count: int,
    pub token_threshold: u32,
    pub compression_percentage: u8,
    pub source_token_count: u32,
    pub effective_token_count: u32,
    pub result: CompressionResultView,
}

impl View for CompressionCacheEntry {
    type V = CompressionCacheEntryView;

    open spec fn view(&self) -> CompressionCacheEntryView {
        CompressionCacheEntryView {
            source_fingerprint: self.source_fingerprint,
            source_message_count: self.source_message_count as int,
            token_threshold: self.token_threshold,
            compression_percentage: self.compression_percentage,
            source_token_count: self.source_token_count,
            effective_token_count: self.effective_token_count,
            result: self.result@,
        }
    }
}

impl Clone for CompressionCacheEntry {
    fn clone(&self) -> (r: Self)
        ensures
            r@ == self@,
    {
        CompressionCacheEntry {
            source_fingerprint: self.source_fingerprint,
            source_message_count: self.source_message_count,
            token_threshold: self.token_threshold,
            compression_percentage: self.compression_percentage,
            source_token_count: self.source_token_count,
            effective_token_count: self.effective_token_count,
            result: self.result.clone(),
        }
    }
}

// ------------------------------------------------------------------
// Store encoding of the compression type
// ------------------------------------------------------------------

/// Store tag of a compression type.
pub open spec fn spec_compression_type_tag(t: CompressionType) -> Seq<char> {
    match t {
        CompressionType::Unchanged => "none"@,
        CompressionType::AiSummarized => "ai_summarized"@,
        CompressionType::Truncated => "truncated"@,
    }
}

/// Compression type named by a store tag, if any.
pub open spec fn spec_compression_type_of(s: Seq<char>) -> Option<CompressionType> {
    if s == "none"@ {
        Some(CompressionType::Unchanged)
    } else if s == "ai_summarized"@ {
        Some(CompressionType::AiSummarized)
    } else if s == "truncated"@ {
        Some(CompressionType::Truncated)
    } else {
        None
    }
}

/// Store tag of a compression type.
pub fn compression_type_to_db_value(value: &CompressionType) -> (r: &'static str)
    ensures
        r@ == spec_compression_type_tag(*value),
{
    match value {
        CompressionType::Unchanged => "none",
        CompressionType::AiSummarized => "ai_summarized",
        CompressionType::Truncated => "truncated",
    }
}

/// Compression type named by a store tag, if any.
pub fn compression_type_from_db_value(value: &str) -> (r: Option<CompressionType>)
    ensures
        r == spec_compression_type_of(value@),
{
    if crate::text::str_eq(value, "none") {
        Some(CompressionType::Unchanged)
    } else if crate::text::str_eq(value, "ai_summarized") {
        Some(CompressionType::AiSummarized)
    } else if crate::text::str_eq(value, "truncated") {
        Some(CompressionType::Truncated)
    } else {
        None
    }
}

/// Writing a compression type to the store and reading it back yields
/// the same type.
pub proof fn lemma_compression_type_round_trip(t: CompressionType)
    ensures
        spec_compression_type_of(spec_compression_type_tag(t)) == Some(t),
{
    reveal_strlit("none");
    reveal_strlit("ai_summarized");
    reveal_strlit("truncated");
    assert("none"@.len() == 4);
    assert("ai_summarized"@.len() == 13);
    assert("truncated"@.len() == 9);
}

// ------------------------------------------------------------------
// Fingerprint
// ------------------------------------------------------------------

pub const FNV_OFFSET_BASIS: u64 = 0xcbf29ce484222325;

pub const FNV_PRIME: u64 = 0x100000001b3;

/// One mixing step of the 64-bit FNV-1a fold.
pub open spec fn fnv_step(h: u64, x: u64) -> u64 {
    vstd::wrapping::u64_specs::wrapping_mul(h ^ x, FNV_PRIME)
}

/// The fold over the characters of a text from position `i` on.
pub open spec fn fnv_chars_from(h: u64, cs: Seq<char>, i: int) -> u64
    decreases cs.len() - i,
{
    if i < 0 || i >= cs.len() {
        h
    } else {
        fnv_chars_from(fnv_step(h, cs[i] as u64), cs, i + 1)
    }
}

/// The fold over all characters of a text.
pub open spec fn fnv_chars(h: u64, cs: Seq<char>) -> u64 {
    fnv_chars_from(h, cs, 0)
}

/// The fold over one message: sender, content and timestamp, each
/// closed by its own separator.
pub open spec fn fnv_message(h: u64, m: SimplifiedMessageView) -> u64 {
    fnv_step(
        fnv_chars(fnv_step(fnv_chars(fnv_step(fnv_chars(h, m.sender), 0x1f), m.content), 0x1e), m.timestamp),
        0x1d,
    )
}

/// The fold over a message sequence from position `i` on.
pub open spec fn spec_fingerprint_from(h: u64, ms: Seq<SimplifiedMessageView>, i: int) -> u64
    decreases ms.len() - i,
{
    if i < 0 || i >= ms.len() {
        h
    } else {
        spec_fingerprint_from(fnv_message(h, ms[i]), ms, i + 1)
    }
}

/// Deterministic fingerprint of a message sequence.
pub open spec fn spec_fingerprint(ms: Seq<SimplifiedMessageView>) -> u64 {
    spec_fingerprint_from(FNV_OFFSET_BASIS, ms, 0)
}

fn fnv_mix_u64(h: u64, x: u64) -> (r: u64)
    ensures
        r == fnv_step(h, x),
{
    (h ^ x).wrapping_mul(FNV_PRIME)
}

fn fnv_mix_str(h: u64, s: &str) -> (r: u64)
    ensures
        r == fnv_chars(h, s@),
{
    let cs: Vec<char> = str_to_chars(s);
    let mut acc: u64 = h;
    let mut i: usize = 0;
    while i < cs.len()
        invariant
            i <= cs@.len(),
            cs@ == s@,
            fnv_chars(h, s@) == fnv_chars_from(acc, s@, i as int),
        decreases cs@.len() - i,
    {
        acc = fnv_mix_u64(acc, cs[i] as u64);
        i += 1;
    }
    acc
}

/// Fingerprint of the first `count` messages of a history.
pub fn fingerprint_prefix(messages: &Vec<SimplifiedMessage>, count: usize) -> (r: u64)
    requires
        count <= messages@.len(),
    ensures
        r == spec_fingerprint(message_views(messages@).subrange(0, count as int)),
{
    let ghost ms = message_views(messages@).subrange(0, count as int);
    let mut h: u64 = FNV_OFFSET_BASIS;
    let mut i: usize = 0;
    while i < count
        invariant
            i <= count <= messages@.len(),
            ms == message_views(messages@).subrange(0, count as int),
            spec_fingerprint(ms) == spec_fingerprint_from(h, ms, i as int),
        decreases count - i,
    {
        let m = &messages[i];
        h = fnv_mix_str(h, m.sender.as_str());
        h = fnv_mix_u64(h, 0x1f);
        h = fnv_mix_str(h, m.content.as_str());
        h = fnv_mix_u64(h, 0x1e);
        h = fnv_mix_str(h, m.timestamp.as_str());
        h = fnv_mix_u64(h, 0x1d);
        assert(ms[i as int] == message_views(messages@)[i as int]);
        i += 1;
    }
    h
}

/// Deterministic fingerprint of a session history: a 64-bit fold of
/// every message's sender, content and timestamp, separator-delimited.
pub fn calculate_messages_fingerprint(messages: &Vec<SimplifiedMessage>) -> (r: u64)
    ensures
        r == spec_fingerprint(message_views(messages@)),
{
    let r = fingerprint_prefix(messages, messages.len());
    proof {
        assert(message_views(messages@).subrange(0, messages@.len() as int) =~= message_views(
            messages@,
        ));
    }
    r
}

// ------------------------------------------------------------------
// Prefix selection
// ------------------------------------------------------------------

/// Token budget that the compressed prefix must reach: the configured
/// percentage of the total, rounded up, at least one.
pub open spec fn spec_target_tokens(total_tokens: u32, compression_percentage: u8) -> u32 {
    let t = (total_tokens * compression_percentage + 99) / 100;
    if t < 1 {
        1u32
    } else {
        t as u32
    }
}

/// Saturating sum of the padded token estimates of the first `k` messages.
pub open spec fn spec_padded_sum(ms: Seq<SimplifiedMessageView>, k: int) -> u32
    decreases k,
{
    if k <= 0 {
        0
    } else {
        sat_add_u32(spec_padded_sum(ms, k - 1), spec_padded_tokens(ms[k - 1]))
    }
}

/// Select the shortest prefix whose padded token estimate reaches the
/// target share of the total. Returns the prefix length, the target,
/// and the tokens the prefix holds; the whole history is taken when even
/// that stays under the target.
pub fn select_messages_to_compress_by_token(
    messages: &Vec<SimplifiedMessage>,
    total_tokens: u32,
    compression_percentage: u8,
) -> (r: (usize, u32, u32))
    requires
        1 <= compression_percentage <= 100,
    ensures
        messages@.len() == 0 ==> r == (0usize, 0u32, 0u32),
        messages@.len() > 0 ==> {
            let ms = message_views(messages@);
            let target = spec_target_tokens(total_tokens, compression_percentage);
            &&& r.1 == target
            &&& 1 <= r.0 <= ms.len()
            &&& r.2 == spec_padded_sum(ms, r.0 as int)
            &&& forall|j: int| 1 <= j < r.0 ==> spec_padded_sum(ms, j) < target
            &&& (r.2 >= target || r.0 == ms.len())
        },
{
    let ghost ms = message_views(messages@);
    if messages.len() == 0 {
        return (0, 0, 0);
    }

    proof {
        assert((total_tokens as int) * (compression_percentage as int) <= 0xffffffffint * 100)
            by (nonlinear_arith)
            requires
                total_tokens <= 0xffffffffu32,
                compression_percentage <= 100,
        ;
    }
    let prod: u64 = (total_tokens as u64) * (compression_percentage as u64);
    let target64: u64 = (prod + 99) / 100;
    let target_raw: u32 = target64 as u32;
    let target_tokens: u32 = if target_raw < 1 {
        1
    } else {
        target_raw
    };
    assert(target_tokens == spec_target_tokens(total_tokens, compression_percentage));

    let mut selected_tokens: u32 = 0;
    let mut selected_count: usize = 0;
    let n: usize = messages.len();
    loop
        invariant_except_break
            selected_count < n,
            n == ms.len(),
            ms == message_views(messages@),
            selected_tokens == spec_padded_sum(ms, selected_count as int),
            selected_tokens < target_tokens,
            forall|j: int| 1 <= j <= selected_count ==> spec_padded_sum(ms, j) < target_tokens,
        ensures
            n == ms.len(),
            1 <= selected_count <= n,
            selected_tokens == spec_padded_sum(ms, selected_count as int),
            forall|j: int| 1 <= j < selected_count ==> spec_padded_sum(ms, j) < target_tokens,
            selected_tokens >= target_tokens || selected_count == n,
        decreases n - selected_count,
    {
        let mt_raw: u32 = message_token_count(&messages[selected_count]);
        let mt: u32 = if mt_raw == 0 {
            1
        } else {
            mt_raw
        };
        assert(mt == spec_padded_tokens(ms[selected_count as int]));
        if mt > u32::MAX - selected_tokens {
            selected_tokens = u32::MAX;
        } else {
            selected_tokens = selected_tokens + mt;
        }
        selected_count += 1;
        if selected_tokens >= target_tokens {
            break;
        }
        if selected_count == n {
            break;
        }
    }

    (selected_count, target_tokens, selected_tokens)
}

/// Copy of the messages `v[a, b)`.
fn copy_message_range(v: &Vec<SimplifiedMessage>, a: usize, b: usize) -> (r: Vec<SimplifiedMessage>)
    requires
        a <= b,
        b <= v@.len(),
    ensures
        r@.len() == b - a,
        message_views(r@) == message_views(v@).subrange(a as int, b as int),
{
    let mut out: Vec<SimplifiedMessage> = Vec::new();
    let ghost views = message_views(v@);
    let mut k: usize = a;
    assert(message_views(out@) =~= views.subrange(a as int, a as int));
    while k < b
        invariant
            a <= k <= b <= v@.len(),
            views == message_views(v@),
            out@.len() == k - a,
            message_views(out@) == views.subrange(a as int, k as int),
        decreases b - k,
    {
        out.push(v[k].clone());
        proof {
            assert(message_views(out@) =~= views.subrange(a as int, k as int).push(
                views[k as int],
            ));
            assert(views.subrange(a as int, k as int).push(views[k as int]) =~= views.subrange(
                a as int,
                k as int + 1,
            ));
        }
        k += 1;
    }
    out
}

// ------------------------------------------------------------------
// Planning and finishing a compression pass
// ------------------------------------------------------------------

/// Whether a cached entry matches the current history exactly: same
/// fingerprint and the same thresholds.
pub open spec fn spec_exact_hit(
    cached: Option<CompressionCacheEntryView>,
    fingerprint: u64,
    token_threshold: u32,
    compression_percentage: u8,
) -> bool {
    match cached {
        Some(c) => c.source_fingerprint == fingerprint && c.token_threshold == token_threshold
            && c.compression_percentage == compression_percentage,
        None => false,
    }
}

/// Whether a cached entry is a prefix base for the current history:
/// same thresholds, and the history's prefix of the cached length
/// fingerprints to the cached value.
pub open spec fn spec_incremental_base(
    cached: Option<CompressionCacheEntryView>,
    ms: Seq<SimplifiedMessageView>,
    token_threshold: u32,
    compression_percentage: u8,
) -> bool {
    match cached {
        Some(c) => c.token_threshold == token_threshold && c.compression_percentage
            == compression_percentage && 0 <= c.source_message_count <= ms.len()
            && spec_fingerprint(ms.subrange(0, c.source_message_count)) == c.source_fingerprint,
        None => false,
    }
}

/// The history a compression pass works on: the cached compacted prefix
/// plus the appended tail when the cache is a prefix base, else the
/// history itself.
pub open spec fn spec_effective_history(
    cached: Option<CompressionCacheEntryView>,
    ms: Seq<SimplifiedMessageView>,
    token_threshold: u32,
    compression_percentage: u8,
) -> Seq<SimplifiedMessageView> {
    if spec_incremental_base(cached, ms, token_threshold, compression_percentage) {
        cached->Some_0.result.messages + ms.skip(cached->Some_0.source_message_count)
    } else {
        ms
    }
}

/// The compression type inherited from a prefix base.
pub open spec fn spec_inherited_type(
    cached: Option<CompressionCacheEntryView>,
    ms: Seq<SimplifiedMessageView>,
    token_threshold: u32,
    compression_percentage: u8,
) -> CompressionType {
    if spec_incremental_base(cached, ms, token_threshold, compression_percentage)
        && cached->Some_0.result.compression_type != CompressionType::Unchanged {
        cached->Some_0.result.compression_type
    } else {
        CompressionType::Unchanged
    }
}

/// The warning inherited from a prefix base.
pub open spec fn spec_inherited_warning(
    cached: Option<CompressionCacheEntryView>,
    ms: Seq<SimplifiedMessageView>,
    token_threshold: u32,
    compression_percentage: u8,
) -> Option<CompressionWarningView> {
    if spec_incremental_base(cached, ms, token_threshold, compression_percentage)
        && cached->Some_0.result.compression_type != CompressionType::Unchanged {
        cached->Some_0.result.warning
    } else {
        None
    }
}

/// What a compression pass has decided to do.
pub enum CompressionPlan {
    /// The cache matches the unchanged history exactly: reuse the stored
    /// result as it is, byte for byte.
    CachedHit { result: CompressionResult },
    /// The (effective) history fits the budget: keep it, inheriting a
    /// prefix base's compression type and warning if one was used.
    NoCompression { result: CompressionResult },
    /// The history exceeds the budget: compress the prefix, keep the
    /// suffix.
    Compress {
        effective: Vec<SimplifiedMessage>,
        prefix_count: usize,
        target_tokens: u32,
        selected_tokens: u32,
        effective_tokens: u32,
    },
}

/// Decide what a compression pass over this history must do.
///
/// The first clause is the idempotence guarantee: for an unchanged
/// history under unchanged thresholds, the stored result is returned
/// unchanged — two successive passes yield identical messages and the
/// identical warning. The incremental clause says the pass never
/// re-compresses an already compacted prefix: when only a tail was
/// appended, work continues from the stored result plus that tail.
pub fn plan_compression(
    messages: &Vec<SimplifiedMessage>,
    token_threshold: u32,
    compression_percentage: u8,
    cached: Option<&CompressionCacheEntry>,
) -> (r: CompressionPlan)
    requires
        1 <= compression_percentage <= 100,
    ensures
        ({
            let ms = message_views(messages@);
            let cv = match cached {
                Some(c) => Some(c@),
                None => None,
            };
            let exact = spec_exact_hit(cv, spec_fingerprint(ms), token_threshold, compression_percentage);
            let eff = spec_effective_history(cv, ms, token_threshold, compression_percentage);
            match r {
                CompressionPlan::CachedHit { result } => exact && result@ == cv->Some_0.result,
                CompressionPlan::NoCompression { result } => {
                    &&& !exact
                    &&& spec_total_tokens(eff) <= token_threshold
                    &&& result@.messages == eff
                    &&& result@.compression_type == spec_inherited_type(cv, ms, token_threshold, compression_percentage)
                    &&& result@.warning == spec_inherited_warning(cv, ms, token_threshold, compression_percentage)
                },
                CompressionPlan::Compress {
                    effective,
                    prefix_count,
                    target_tokens,
                    selected_tokens,
                    effective_tokens,
                } => {
                    &&& !exact
                    &&& spec_total_tokens(eff) > token_threshold
                    &&& message_views(effective@) == eff
                    &&& effective_tokens == spec_total_tokens(eff)
                    &&& target_tokens == spec_target_tokens(effective_tokens, compression_percentage)
                    &&& 1 <= prefix_count <= eff.len()
                    &&& selected_tokens == spec_padded_sum(eff, prefix_count as int)
                    &&& forall|j: int|
                        1 <= j < prefix_count ==> spec_padded_sum(eff, j) < target_tokens
                    &&& (selected_tokens >= target_tokens || prefix_count == eff.len())
                },
            }
        }),
{
    let ghost ms = message_views(messages@);
    let ghost cv = match cached {
        Some(c) => Some(c@),
        None => None,
    };
    let fingerprint: u64 = calculate_messages_fingerprint(messages);

    if let Some(c) = cached {
        if c.source_fingerprint == fingerprint && c.token_threshold == token_threshold
            && c.compression_percentage == compression_percentage {
            return CompressionPlan::CachedHit { result: c.result.clone() };
        }
    }

    let mut effective: Vec<SimplifiedMessage>;
    let ghost incremental = spec_incremental_base(cv, ms, token_threshold, compression_percentage);
    let mut is_incremental: bool = false;
    match cached {
        Some(c) => {
            if c.token_threshold == token_threshold && c.compression_percentage
                == compression_percentage && c.source_message_count <= messages.len() {
                let prefix_fp: u64 = fingerprint_prefix(messages, c.source_message_count);
                if prefix_fp == c.source_fingerprint {
                    is_incremental = true;
                    effective = clone_messages(&c.result.messages);
                    let tail: Vec<SimplifiedMessage> = copy_message_range(
                        messages,
                        c.source_message_count,
                        messages.len(),
                    );
                    crate::context::append_all(&mut effective, &tail);
                    proof {
                        assert(ms.skip(c@.source_message_count) =~= ms.subrange(
                            c.source_message_count as int,
                            messages@.len() as int,
                        ));
                        assert(incremental);
                        assert(message_views(effective@) =~= spec_effective_history(
                            cv,
                            ms,
                            token_threshold,
                            compression_percentage,
                        ));
                    }
                } else {
                    effective = clone_messages(messages);
                    assert(!incremental);
                }
            } else {
                effective = clone_messages(messages);
                assert(!incremental);
            }
        },
        None => {
            effective = clone_messages(messages);
            assert(!incremental);
        },
    }
    let ghost eff = spec_effective_history(cv, ms, token_threshold, compression_percentage);
    assert(message_views(effective@) == eff);

    let token_count: u32 = estimate_token_count(&effective);

    if token_count <= token_threshold {
        let inherited_type: CompressionType;
        let inherited_warning: Option<CompressionWarning>;
        if is_incremental {
            match cached {
                Some(c) => {
                    if !matches!(c.result.compression_type, CompressionType::Unchanged) {
                        inherited_type = c.result.compression_type;
                        inherited_warning = match &c.result.warning {
                            Some(w) => Some(w.clone()),
                            None => None,
                        };
                    } else {
                        inherited_type = CompressionType::Unchanged;
                        inherited_warning = None;
                    }
                },
                None => {
                    inherited_type = CompressionType::Unchanged;
                    inherited_warning = None;
                },
            }
        } else {
            inherited_type = CompressionType::Unchanged;
            inherited_warning = None;
        }
        return CompressionPlan::NoCompression {
            result: CompressionResult {
                messages: effective,
                compression_type: inherited_type,
                warning: inherited_warning,
            },
        };
    }

    let (prefix_count, target_tokens, selected_tokens) = select_messages_to_compress_by_token(
        &effective,
        token_count,
        compression_percentage,
    );
    assert(eff.len() > 0) by {
        if eff.len() == 0 {
            assert(spec_total_tokens(eff) == 0);
        }
    }
    CompressionPlan::Compress {
        effective,
        prefix_count,
        target_tokens,
        selected_tokens,
        effective_tokens: token_count,
    }
}

/// Content of the synthetic summary message when an AI summary is used.
pub open spec fn spec_ai_summary_content(summary: Seq<char>) -> Seq<char> {
    "[History Summary]\n"@ + summary
}

/// Content of the synthetic summary message in the truncation fallback.
pub open spec fn spec_fallback_content(n: u64, tokens: u64, path: Seq<char>) -> Seq<char> {
    "[History Summary - Fallback]\nAI summarization failed; archived "@ + dec_digits(n as nat)
        + " messages (~"@ + dec_digits(tokens as nat) + " tokens) to "@ + path
}

/// Message of the fallback warning.
pub open spec fn spec_fallback_warning_message(n: u64, tokens: u64) -> Seq<char> {
    "AI summarization failed or was ineffective; archived "@ + dec_digits(n as nat)
        + " messages (~"@ + dec_digits(tokens as nat) + " tokens) to cutoff file"@
}

/// The view of the synthetic `system:summary` message.
pub open spec fn spec_summary_message(content: Seq<char>, timestamp: Seq<char>) -> SimplifiedMessageView {
    SimplifiedMessageView { sender: "system:summary"@, content, timestamp }
}

/// Finish a compression pass once summarization has been attempted.
///
/// An AI summary is used only when it strictly shrinks the history;
/// otherwise the pass falls back to truncation: the result opens with a
/// fallback marker naming the cutoff file, and carries a
/// `COMPRESSION_FALLBACK` warning. The second component says whether the
/// caller must archive the compressed prefix to the cutoff path.
pub fn finish_compression(
    effective: &Vec<SimplifiedMessage>,
    prefix_count: usize,
    selected_tokens: u32,
    effective_tokens: u32,
    summary: Option<&String>,
    now: &String,
    cutoff_path: &String,
) -> (r: (CompressionResult, bool))
    requires
        prefix_count <= effective@.len(),
    ensures
        ({
            let eff = message_views(effective@);
            let kept = eff.skip(prefix_count as int);
            match summary {
                Some(s) => {
                    let ai = spec_summary_message(spec_ai_summary_content(s@), now@);
                    if spec_total_tokens(seq![ai] + kept) < effective_tokens {
                        &&& r.0@.messages == seq![ai] + kept
                        &&& r.0@.compression_type == CompressionType::AiSummarized
                        &&& r.0@.warning is None
                        &&& r.1 == false
                    } else {
                        fallback_result_matches(r, prefix_count as u64, selected_tokens, kept, now@, cutoff_path@)
                    }
                },
                None => fallback_result_matches(r, prefix_count as u64, selected_tokens, kept, now@, cutoff_path@),
            }
        }),
{
    let ghost eff = message_views(effective@);
    let ghost kept = eff.skip(prefix_count as int);
    let kept_messages: Vec<SimplifiedMessage> = copy_message_range(
        effective,
        prefix_count,
        effective.len(),
    );
    proof {
        assert(eff.subrange(prefix_count as int, eff.len() as int) =~= kept);
    }

    if let Some(s) = summary {
        let mut content: String = "[History Summary]\n".to_owned();
        content.append(s.as_str());
        let summary_message = SimplifiedMessage {
            sender: "system:summary".to_owned(),
            content,
            timestamp: now.clone(),
        };
        let ghost ai = spec_summary_message(spec_ai_summary_content(s@), now@);
        assert(summary_message@ == ai);
        let mut candidate: Vec<SimplifiedMessage> = Vec::new();
        candidate.push(summary_message);
        assert(message_views(candidate@) =~= seq![ai]);
        crate::context::append_all(&mut candidate, &kept_messages);
        assert(message_views(candidate@) == seq![ai] + kept);
        let candidate_tokens: u32 = estimate_token_count(&candidate);
        if candidate_tokens < effective_tokens {
            return (
                CompressionResult {
                    messages: candidate,
                    compression_type: CompressionType::AiSummarized,
                    warning: None,
                },
                false,
            );
        }
    }

    build_fallback_result(kept_messages, prefix_count, selected_tokens, now, cutoff_path)
}

/// Whether a result is exactly the truncation-fallback outcome.
pub open spec fn fallback_result_matches(
    r: (CompressionResult, bool),
    n: u64,
    selected_tokens: u32,
    kept: Seq<SimplifiedMessageView>,
    now: Seq<char>,
    cutoff_path: Seq<char>,
) -> bool {
    &&& r.0@.messages == seq![
        spec_summary_message(spec_fallback_content(n, selected_tokens as u64, cutoff_path), now),
    ] + kept
    &&& r.0@.compression_type == CompressionType::Truncated
    &&& r.0@.warning == Some(
        CompressionWarningView {
            code: "COMPRESSION_FALLBACK"@,
            message: spec_fallback_warning_message(n, selected_tokens as u64),
            split_file_path: cutoff_path,
        },
    )
    &&& r.1 == true
}

fn build_fallback_result(
    kept_messages: Vec<SimplifiedMessage>,
    prefix_count: usize,
    selected_tokens: u32,
    now: &String,
    cutoff_path: &String,
) -> (r: (CompressionResult, bool))
    ensures
        fallback_result_matches(
            r,
            prefix_count as u64,
            selected_tokens,
            message_views(kept_messages@),
            now@,
            cutoff_path@,
        ),
{
    let ghost kept = message_views(kept_messages@);
    let n_digits: String = chars_to_string(&u64_to_dec(prefix_count as u64));
    let t_digits: String = chars_to_string(&u64_to_dec(selected_tokens as u64));

    let mut content: String = "[History Summary - Fallback]\nAI summarization failed; archived "
        .to_owned();
    content.append(n_digits.as_str());
    content.append(" messages (~");
    content.append(t_digits.as_str());
    content.append(" tokens) to ");
    content.append(cutoff_path.as_str());
    assert(content@ == spec_fallback_content(
        prefix_count as u64,
        selected_tokens as u64,
        cutoff_path@,
    ));

    let mut warning_message: String = "AI summarization failed or was ineffective; archived "
        .to_owned();
    warning_message.append(n_digits.as_str());
    warning_message.append(" messages (~");
    warning_message.append(t_digits.as_str());
    warning_message.append(" tokens) to cutoff file");
    assert(warning_message@ == spec_fallback_warning_message(
        prefix_count as u64,
        selected_tokens as u64,
    ));

    let marker = SimplifiedMessage {
        sender: "system:summary".to_owned(),
        content,
        timestamp: now.clone(),
    };
    let ghost marker_view = spec_summary_message(
        spec_fallback_content(prefix_count as u64, selected_tokens as u64, cutoff_path@),
        now@,
    );
    assert(marker@ == marker_view);

    let mut result_messages: Vec<SimplifiedMessage> = Vec::new();
    result_messages.push(marker);
    assert(message_views(result_messages@) =~= seq![marker_view]);
    crate::context::append_all(&mut result_messages, &kept_messages);
    assert(message_views(result_messages@) == seq![marker_view] + kept);

    (
        CompressionResult {
            messages: result_messages,
            compression_type: CompressionType::Truncated,
            warning: Some(
                CompressionWarning {
                    code: "COMPRESSION_FALLBACK".to_owned(),
                    message: warning_message,
                    split_file_path: cutoff_path.clone(),
                },
            ),
        },
        true,
    )
}

/// Whether the stored row fields of a cache entry are valid: a decimal
/// 64-bit fingerprint, counts that fit their types, and a known
/// compression-type tag.
pub open spec fn spec_cache_row_valid(
    fingerprint_text: Seq<char>,
    source_message_count: i64,
    token_threshold: i64,
    compression_percentage: i64,
    source_token_count: i64,
    effective_token_count: i64,
    type_tag: Seq<char>,
) -> bool {
    &&& crate::text::spec_parse_u64(fingerprint_text) >= 0
    &&& 0 <= source_message_count <= usize::MAX
    &&& 0 <= token_threshold <= u32::MAX
    &&& 0 <= compression_percentage <= u8::MAX
    &&& 0 <= source_token_count <= u32::MAX
    &&& 0 <= effective_token_count <= u32::MAX
    &&& spec_compression_type_of(type_tag) is Some
}

/// Rebuild a persisted cache entry from its stored row fields. An
/// invalid row — a malformed fingerprint, a count out of range, an
/// unknown type tag — is ignored rather than trusted; a valid row
/// reproduces the entry exactly.
pub fn decode_cache_row(
    fingerprint_text: &str,
    source_message_count: i64,
    token_threshold: i64,
    compression_percentage: i64,
    source_token_count: i64,
    effective_token_count: i64,
    type_tag: &str,
    warning: Option<CompressionWarning>,
    result_messages: Vec<SimplifiedMessage>,
) -> (r: Option<CompressionCacheEntry>)
    ensures
        r is Some <==> spec_cache_row_valid(
            fingerprint_text@,
            source_message_count,
            token_threshold,
            compression_percentage,
            source_token_count,
            effective_token_count,
            type_tag@,
        ),
        r matches Some(e) ==> {
            &&& e.source_fingerprint == crate::text::spec_parse_u64(fingerprint_text@)
            &&& e@.source_message_count == source_message_count
            &&& e@.token_threshold == token_threshold
            &&& e@.compression_percentage == compression_percentage
            &&& e@.source_token_count == source_token_count
            &&& e@.effective_token_count == effective_token_count
            &&& Some(e.result.compression_type) == spec_compression_type_of(type_tag@)
            &&& e@.result.messages == message_views(result_messages@)
            &&& e@.result.warning == match warning {
                Some(w) => Some(w@),
                None => None,
            }
        },
{
    let fingerprint: u64 = match crate::text::parse_u64_dec(fingerprint_text) {
        Some(v) => v,
        None => {
            return None;
        },
    };
    if source_message_count < 0 {
        return None;
    }
    let count_u64: u64 = source_message_count as u64;
    if count_u64 > usize::MAX as u64 {
        return None;
    }
    if token_threshold < 0 || token_threshold > u32::MAX as i64 {
        return None;
    }
    if compression_percentage < 0 || compression_percentage > u8::MAX as i64 {
        return None;
    }
    if source_token_count < 0 || source_token_count > u32::MAX as i64 {
        return None;
    }
    if effective_token_count < 0 || effective_token_count > u32::MAX as i64 {
        return None;
    }
    let compression_type: CompressionType = match compression_type_from_db_value(type_tag) {
        Some(t) => t,
        None => {
            return None;
        },
    };
    Some(CompressionCacheEntry {
        source_fingerprint: fingerprint,
        source_message_count: count_u64 as usize,
        token_threshold: token_threshold as u32,
        compression_percentage: compression_percentage as u8,
        source_token_count: source_token_count as u32,
        effective_token_count: effective_token_count as u32,
        result: CompressionResult {
            messages: result_messages,
            compression_type,
            warning,
        },
    })
}

/// Record a compression outcome for later reuse.
pub fn make_cache_entry(
    messages: &Vec<SimplifiedMessage>,
    token_threshold: u32,
    compression_percentage: u8,
    result: &CompressionResult,
) -> (r: CompressionCacheEntry)
    ensures
        r@.source_fingerprint == spec_fingerprint(message_views(messages@)),
        r@.source_message_count == messages@.len(),
        r@.token_threshold == token_threshold,
        r@.compression_percentage == compression_percentage,
        r@.source_token_count == spec_total_tokens(message_views(messages@)),
        r@.effective_token_count == spec_total_tokens(result@.messages),
        r@.result == result@,
{
    CompressionCacheEntry {
        source_fingerprint: calculate_messages_fingerprint(messages),
        source_message_count: messages.len(),
        token_threshold,
        compression_percentage,
        source_token_count: estimate_token_count(messages),
        effective_token_count: estimate_token_count(&result.messages),
        result: result.clone(),
    }
}

/// For an unchanged history under unchanged thresholds, the entry
/// recorded by the previous pass matches exactly, so the next pass
/// returns the stored result unchanged: same message sequence, same
/// warning.
pub proof fn lemma_compression_idempotent(
    c: CompressionCacheEntryView,
    ms: Seq<SimplifiedMessageView>,
    token_threshold: u32,
    compression_percentage: u8,
)
    requires
        c.source_fingerprint == spec_fingerprint(ms),
        c.token_threshold == token_threshold,
        c.compression_percentage == compression_percentage,
    ensures
        spec_exact_hit(Some(c), spec_fingerprint(ms), token_threshold, compression_percentage),
{
}

/// When messages were only appended since the cached pass, the next
/// pass works on the cached result plus exactly the appended tail.
pub proof fn lemma_compression_incremental(
    c: CompressionCacheEntryView,
    ms: Seq<SimplifiedMessageView>,
    token_threshold: u32,
    compression_percentage: u8,
)
    requires
        c.token_threshold == token_threshold,
        c.compression_percentage == compression_percentage,
        0 <= c.source_message_count <= ms.len(),
        c.source_fingerprint == spec_fingerprint(ms.subrange(0, c.source_message_count)),
    ensures
        spec_effective_history(Some(c), ms, token_threshold, compression_percentage)
            == c.result.messages + ms.skip(c.source_message_count),
{
}

} // verus!

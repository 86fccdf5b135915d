//! Deterministic token estimation.
//!
//! Budgets are measured with a byte-pair encoder over a fixed vocabulary,
//! so the same text always measures the same; sums saturate rather than
//! overflow.

use vstd::prelude::*;

use crate::context::{message_views, SimplifiedMessage, SimplifiedMessageView};

verus! {

/// Number of byte-pair tokens of a text under the fixed vocabulary.
pub uninterp spec fn bpe_token_count(s: Seq<char>) -> u32;

/// Relies on tiktoken_rs::cl100k_base_singleton and
/// CoreBPE::encode_with_special_tokens: the byte-pair encoding of the
/// text under the fixed cl100k vocabulary, a function of the text alone;
/// empty text encodes to no tokens.
#[verifier::external_body]
pub fn count_text_tokens(s: &str) -> (r: u32)
    ensures
        r == bpe_token_count(s@),
        s@.len() == 0 ==> r == 0,
{
    let tokens = tiktoken_rs::cl100k_base_singleton().encode_with_special_tokens(s);
    u32::try_from(tokens.len()).unwrap_or(u32::MAX)
}

/// Addition that stops at the largest representable count.
pub open spec fn sat_add_u32(a: u32, b: u32) -> u32 {
    if a + b > u32::MAX {
        u32::MAX
    } else {
        (a + b) as u32
    }
}

/// Estimated tokens of one message: its sender label plus its content.
pub open spec fn spec_message_tokens(m: SimplifiedMessageView) -> u32 {
    sat_add_u32(bpe_token_count(m.sender), bpe_token_count(m.content))
}

/// Estimated tokens of a message sequence, saturating.
pub open spec fn spec_total_tokens(ms: Seq<SimplifiedMessageView>) -> u32
    decreases ms.len(),
{
    if ms.len() == 0 {
        0
    } else {
        sat_add_u32(spec_total_tokens(ms.drop_last()), spec_message_tokens(ms.last()))
    }
}

/// Estimated tokens of one message.
pub fn message_token_count(m: &SimplifiedMessage) -> (r: u32)
    ensures
        r == spec_message_tokens(m@),
{
    let sender_tokens: u32 = count_text_tokens(m.sender.as_str());
    let content_tokens: u32 = count_text_tokens(m.content.as_str());
    if content_tokens > u32::MAX - sender_tokens {
        u32::MAX
    } else {
        sender_tokens + content_tokens
    }
}

/// Estimate the token count of a message sequence.
pub fn estimate_token_count(messages: &Vec<SimplifiedMessage>) -> (r: u32)
    ensures
        r == spec_total_tokens(message_views(messages@)),
{
    let mut total: u32 = 0;
    let mut i: usize = 0;
    while i < messages.len()
        invariant
            i <= messages@.len(),
            total == spec_total_tokens(message_views(messages@).subrange(0, i as int)),
        decreases messages@.len() - i,
    {
        let m_tokens: u32 = message_token_count(&messages[i]);
        let ghost prefix = message_views(messages@).subrange(0, i as int);
        let ghost next_prefix = message_views(messages@).subrange(0, i as int + 1);
        proof {
            assert(next_prefix.drop_last() =~= prefix);
            assert(next_prefix.last() == message_views(messages@)[i as int]);
        }
        if m_tokens > u32::MAX - total {
            total = u32::MAX;
        } else {
            total = total + m_tokens;
        }
        i += 1;
    }
    assert(message_views(messages@).subrange(0, messages@.len() as int) =~= message_views(
        messages@,
    ));
    total
}

/// Appending messages never lowers the estimate.
pub proof fn lemma_total_tokens_monotone(ms: Seq<SimplifiedMessageView>, n: int)
    requires
        0 <= n <= ms.len(),
    ensures
        spec_total_tokens(ms.subrange(0, n)) <= spec_total_tokens(ms),
    decreases ms.len() - n,
{
    if n == ms.len() {
        assert(ms.subrange(0, ms.len() as int) =~= ms);
    } else {
        lemma_total_tokens_monotone(ms.subrange(0, ms.len() - 1), n);
        assert(ms.subrange(0, ms.len() - 1).subrange(0, n) =~= ms.subrange(0, n));
        assert(ms.drop_last() =~= ms.subrange(0, ms.len() - 1));
    }
}

} // verus!

//! Mention and routing-directive grammars over Unicode text.
//!
//! Two grammars route work to agents: `@handle` in user messages, and
//! `[sendMessageTo@@name]` / `[sendMessageTo@@{name}]` directives in
//! agent messages. Both yield names in first-occurrence order without
//! duplicates.

use vstd::prelude::*;

use crate::text::{
    char_is_alphanumeric, chars_to_string, contains_seq, find_sub_from, is_unicode_alphanumeric,
    matches_at, str_to_chars,
};

verus! {

/// Characters a handle may consist of.
pub open spec fn is_handle_char(c: char) -> bool {
    is_unicode_alphanumeric(c) || c == '_' || c == '-'
}

/// A `@` directly after one of these characters does not start a mention.
pub open spec fn blocks_mention(c: char) -> bool {
    is_unicode_alphanumeric(c) || c == '_' || c == '-' || c == '.'
}

/// Length of the maximal run of handle characters starting at `i`.
pub open spec fn handle_run_len(s: Seq<char>, i: int) -> int
    decreases s.len() - i,
{
    if i < 0 || i >= s.len() || !is_handle_char(s[i]) {
        0
    } else {
        1 + handle_run_len(s, i + 1)
    }
}

/// A mention starts at `i`: a `@` not preceded by a blocking character.
pub open spec fn is_mention_start(s: Seq<char>, i: int) -> bool {
    &&& 0 <= i < s.len()
    &&& s[i] == '@'
    &&& (i == 0 || !blocks_mention(s[i - 1]))
}

/// The handle named by a mention starting at `i`.
pub open spec fn mention_name_at(s: Seq<char>, i: int) -> Seq<char> {
    s.subrange(i + 1, i + 1 + handle_run_len(s, i + 1))
}

/// The handles of `s` from position `i` on, first occurrence first,
/// accumulated onto `acc` without duplicates.
pub open spec fn mentions_from(s: Seq<char>, i: int, acc: Seq<Seq<char>>) -> Seq<Seq<char>>
    decreases s.len() - i,
{
    if i < 0 || i >= s.len() {
        acc
    } else if is_mention_start(s, i) && handle_run_len(s, i + 1) > 0 {
        let w = mention_name_at(s, i);
        mentions_from(s, i + 1, if acc.contains(w) { acc } else { acc.push(w) })
    } else {
        mentions_from(s, i + 1, acc)
    }
}

/// All `@handle` mentions of the text, in first-occurrence order,
/// de-duplicated.
pub open spec fn spec_parse_mentions(s: Seq<char>) -> Seq<Seq<char>> {
    mentions_from(s, 0, Seq::empty())
}

/// Views of a vector of strings.
pub open spec fn string_views(v: Seq<String>) -> Seq<Seq<char>> {
    v.map_values(|t: String| t@)
}

pub(crate) fn is_handle_char_exec(c: char) -> (r: bool)
    ensures
        r == is_handle_char(c),
{
    char_is_alphanumeric(c) || c == '_' || c == '-'
}

pub(crate) fn blocks_mention_exec(c: char) -> (r: bool)
    ensures
        r == blocks_mention(c),
{
    char_is_alphanumeric(c) || c == '_' || c == '-' || c == '.'
}

/// Whether some string of the vector has this view.
pub(crate) fn contains_string(v: &Vec<String>, s: &String) -> (r: bool)
    ensures
        r == string_views(v@).contains(s@),
{
    let mut i: usize = 0;
    while i < v.len()
        invariant
            i <= v@.len(),
            forall|k: int| 0 <= k < i ==> v@[k]@ != s@,
        decreases v@.len() - i,
    {
        if v[i].eq(s) {
            assert(string_views(v@)[i as int] == s@);
            return true;
        }
        i += 1;
    }
    assert forall|k: int| 0 <= k < string_views(v@).len() implies string_views(v@)[k] != s@ by {
        assert(string_views(v@)[k] == v@[k]@);
    }
    false
}

/// The maximal handle-character run in `[a, b)` with nothing after it
/// has exactly the length `b - a`.
proof fn lemma_run_len(s: Seq<char>, a: int, b: int)
    requires
        0 <= a <= b <= s.len(),
        forall|m: int| a <= m < b ==> is_handle_char(s[m]),
        b == s.len() || !is_handle_char(s[b]),
    ensures
        handle_run_len(s, a) == b - a,
    decreases b - a,
{
    if a == b {
    } else {
        lemma_run_len(s, a + 1, b);
    }
}

/// Parse `@handle` mentions: a `@` not preceded by an alphanumeric, `_`,
/// `-` or `.`, followed by a non-empty run of alphanumeric, `_` or `-`
/// characters. Handles come in first-occurrence order, de-duplicated.
pub fn parse_mentions(content: &str) -> (r: Vec<String>)
    ensures
        string_views(r@) == spec_parse_mentions(content@),
{
    let chars: Vec<char> = str_to_chars(content);
    let n: usize = chars.len();
    let mut mentions: Vec<String> = Vec::new();
    assert(string_views(mentions@) =~= Seq::<Seq<char>>::empty());
    let mut i: usize = 0;
    while i < n
        invariant
            i <= n,
            n == chars@.len(),
            chars@ == content@,
            spec_parse_mentions(content@) == mentions_from(
                content@,
                i as int,
                string_views(mentions@),
            ),
        decreases n - i,
    {
        let c: char = chars[i];
        if c == '@' && (i == 0 || !blocks_mention_exec(chars[i - 1])) {
            let mut j: usize = i + 1;
            let mut name: Vec<char> = Vec::new();
            while j < n
                invariant
                    i + 1 <= j <= n,
                    n == chars@.len(),
                    chars@ == content@,
                    name@ == content@.subrange(i + 1, j as int),
                    forall|m: int| i + 1 <= m < j ==> is_handle_char(content@[m]),
                ensures
                    i + 1 <= j <= n,
                    name@ == content@.subrange(i + 1, j as int),
                    forall|m: int| i + 1 <= m < j ==> is_handle_char(content@[m]),
                    j == n || !is_handle_char(content@[j as int]),
                decreases n - j,
            {
                let d: char = chars[j];
                if !is_handle_char_exec(d) {
                    break;
                }
                name.push(d);
                assert(name@ =~= content@.subrange(i + 1, j + 1));
                j += 1;
            }
            proof {
                lemma_run_len(content@, i + 1, j as int);
            }
            if name.len() > 0 {
                let name_string: String = chars_to_string(&name);
                assert(name_string@ == mention_name_at(content@, i as int));
                let ghost old_views = string_views(mentions@);
                if !contains_string(&mentions, &name_string) {
                    mentions.push(name_string);
                    assert(string_views(mentions@) =~= old_views.push(
                        mention_name_at(content@, i as int),
                    ));
                }
            }
        }
        i += 1;
    }
    mentions
}

/// A mention with exactly this name starts at `j`.
pub open spec fn mention_with_name_at(s: Seq<char>, j: int, w: Seq<char>) -> bool {
    &&& is_mention_start(s, j)
    &&& handle_run_len(s, j + 1) > 0
    &&& mention_name_at(s, j) == w
}

/// First position at or after `i` where a mention named `w` starts;
/// the text's length when there is none.
pub open spec fn first_mention_pos(s: Seq<char>, w: Seq<char>, i: int) -> int
    decreases s.len() - i + 1,
{
    if i < 0 || i >= s.len() {
        s.len() as int
    } else if mention_with_name_at(s, i, w) {
        i
    } else {
        first_mention_pos(s, w, i + 1)
    }
}

proof fn lemma_fmp_props(s: Seq<char>, w: Seq<char>, j: int)
    requires
        0 <= j <= s.len(),
    ensures
        j <= first_mention_pos(s, w, j) <= s.len(),
        first_mention_pos(s, w, j) < s.len() ==> mention_with_name_at(
            s,
            first_mention_pos(s, w, j),
            w,
        ),
        forall|m: int| j <= m < first_mention_pos(s, w, j) ==> !mention_with_name_at(s, m, w),
    decreases s.len() - j + 1,
{
    if j < s.len() && !mention_with_name_at(s, j, w) {
        lemma_fmp_props(s, w, j + 1);
    }
}

proof fn lemma_mentions_from_order(s: Seq<char>, i: int, acc: Seq<Seq<char>>)
    requires
        0 <= i <= s.len(),
        forall|k: int| 0 <= k < acc.len() ==> first_mention_pos(s, #[trigger] acc[k], 0) < i,
        forall|k1: int, k2: int|
            0 <= k1 < k2 < acc.len() ==> first_mention_pos(s, acc[k1], 0) < first_mention_pos(
                s,
                acc[k2],
                0,
            ),
        forall|w: Seq<char>| #[trigger] first_mention_pos(s, w, 0) < i ==> acc.contains(w),
    ensures
        forall|k1: int, k2: int|
            0 <= k1 < k2 < mentions_from(s, i, acc).len() ==> first_mention_pos(
                s,
                mentions_from(s, i, acc)[k1],
                0,
            ) < first_mention_pos(s, mentions_from(s, i, acc)[k2], 0),
    decreases s.len() - i + 1,
{
    if i >= s.len() {
    } else if is_mention_start(s, i) && handle_run_len(s, i + 1) > 0 {
        let w = mention_name_at(s, i);
        assert(mention_with_name_at(s, i, w));
        if acc.contains(w) {
            assert(mentions_from(s, i, acc) == mentions_from(s, i + 1, acc));
            assert forall|w2: Seq<char>| #[trigger] first_mention_pos(s, w2, 0) < i + 1 implies
                acc.contains(w2) by {
                if first_mention_pos(s, w2, 0) == i {
                    lemma_fmp_props(s, w2, 0);
                    assert(mention_with_name_at(s, i, w2));
                    assert(w2 == w);
                }
            }
            lemma_mentions_from_order(s, i + 1, acc);
        } else {
            let acc2 = acc.push(w);
            lemma_fmp_props(s, w, 0);
            let fmp0 = first_mention_pos(s, w, 0);
            assert(fmp0 == i) by {
                if fmp0 < i {
                    assert(acc.contains(w));
                } else if fmp0 > i {
                    assert(!mention_with_name_at(s, i, w));
                }
            }
            assert forall|k: int| 0 <= k < acc2.len() implies first_mention_pos(
                s,
                #[trigger] acc2[k],
                0,
            ) < i + 1 by {
                if k < acc.len() {
                    assert(acc2[k] == acc[k]);
                } else {
                    assert(acc2[k] == w);
                }
            }
            assert forall|k1: int, k2: int|
                0 <= k1 < k2 < acc2.len() implies first_mention_pos(s, acc2[k1], 0)
                < first_mention_pos(s, acc2[k2], 0) by {
                if k2 < acc.len() {
                    assert(acc2[k1] == acc[k1] && acc2[k2] == acc[k2]);
                } else {
                    assert(acc2[k2] == w);
                    assert(acc2[k1] == acc[k1]);
                    assert(first_mention_pos(s, acc[k1], 0) < i);
                }
            }
            assert forall|w2: Seq<char>| #[trigger] first_mention_pos(s, w2, 0) < i + 1 implies
                acc2.contains(w2) by {
                if first_mention_pos(s, w2, 0) < i {
                    assert(acc.contains(w2));
                    let k = choose|k: int| 0 <= k < acc.len() && acc[k] == w2;
                    assert(acc2[k] == w2);
                    lemma_contains_index(acc2, k);
                } else {
                    lemma_fmp_props(s, w2, 0);
                    assert(mention_with_name_at(s, i, w2));
                    assert(w2 == w);
                    assert(acc2[acc.len() as int] == w);
                    lemma_contains_index(acc2, acc.len() as int);
                }
            }
            lemma_mentions_from_order(s, i + 1, acc2);
            assert(mentions_from(s, i, acc) == mentions_from(s, i + 1, acc2));
        }
    } else {
        assert forall|w2: Seq<char>| #[trigger] first_mention_pos(s, w2, 0) < i + 1 implies
            acc.contains(w2) by {
            if first_mention_pos(s, w2, 0) == i {
                lemma_fmp_props(s, w2, 0);
                assert(mention_with_name_at(s, i, w2));
            }
        }
        lemma_mentions_from_order(s, i + 1, acc);
        assert(mentions_from(s, i, acc) == mentions_from(s, i + 1, acc));
    }
}

/// Handles come out in first-occurrence order: of any two parsed
/// handles, the one listed first starts its first mention earlier in
/// the text.
pub proof fn lemma_parse_mentions_first_occurrence_order(s: Seq<char>)
    ensures
        forall|k1: int, k2: int|
            0 <= k1 < k2 < spec_parse_mentions(s).len() ==> first_mention_pos(
                s,
                spec_parse_mentions(s)[k1],
                0,
            ) < first_mention_pos(s, spec_parse_mentions(s)[k2], 0),
{
    assert forall|w: Seq<char>| #[trigger] first_mention_pos(s, w, 0) < 0 implies Seq::<
        Seq<char>,
    >::empty().contains(w) by {
        lemma_fmp_props(s, w, 0);
    }
    lemma_mentions_from_order(s, 0, Seq::empty());
}

// ------------------------------------------------------------------
// Routing directives
// ------------------------------------------------------------------

/// First position at or after `from` where the needle occurs, or -1.
pub open spec fn spec_find(s: Seq<char>, from: int, needle: Seq<char>) -> int
    decreases s.len() - from + 1,
{
    if from < 0 || from + needle.len() > s.len() {
        -1
    } else if matches_at(s, from, needle) {
        from
    } else {
        spec_find(s, from + 1, needle)
    }
}

proof fn lemma_spec_find_none(s: Seq<char>, from: int, needle: Seq<char>)
    requires
        0 <= from,
        forall|j: int| from <= j ==> !matches_at(s, j, needle),
    ensures
        spec_find(s, from, needle) == -1,
    decreases s.len() - from + 1,
{
    if from + needle.len() > s.len() {
    } else {
        lemma_spec_find_none(s, from + 1, needle);
    }
}

proof fn lemma_spec_find_some(s: Seq<char>, from: int, needle: Seq<char>, i: int)
    requires
        0 <= from <= i,
        matches_at(s, i, needle),
        forall|j: int| from <= j < i ==> !matches_at(s, j, needle),
    ensures
        spec_find(s, from, needle) == i,
    decreases s.len() - from + 1,
{
    if from == i {
    } else {
        lemma_spec_find_some(s, from + 1, needle, i);
    }
}

/// A found position is at or after `from`, and the needle matches there.
proof fn lemma_spec_find_props(s: Seq<char>, from: int, needle: Seq<char>)
    requires
        0 <= from,
    ensures
        spec_find(s, from, needle) >= 0 ==> {
            &&& spec_find(s, from, needle) >= from
            &&& matches_at(s, spec_find(s, from, needle), needle)
        },
    decreases s.len() - from + 1,
{
    if from + needle.len() > s.len() {
    } else if matches_at(s, from, needle) {
    } else {
        lemma_spec_find_props(s, from + 1, needle);
    }
}

/// The prefix that opens a routing directive.
pub open spec fn directive_prefix() -> Seq<char> {
    seq!['[', 's', 'e', 'n', 'd', 'M', 'e', 's', 's', 'a', 'g', 'e', 'T', 'o', '@', '@']
}

/// The two-character close of a brace-form directive.
pub open spec fn directive_brace_close() -> Seq<char> {
    seq!['}', ']']
}

/// A directive target: non-empty, made only of handle characters.
pub open spec fn valid_directive_name(w: Seq<char>) -> bool {
    w.len() > 0 && forall|k: int| 0 <= k < w.len() ==> is_handle_char(w[k])
}

/// Adds a name candidate to the accumulator if it is a valid,
/// not-yet-seen target.
pub open spec fn directive_push(acc: Seq<Seq<char>>, w: Seq<char>) -> Seq<Seq<char>> {
    if valid_directive_name(w) && !acc.contains(w) {
        acc.push(w)
    } else {
        acc
    }
}

/// The directive targets of `s` from `cursor` on, first occurrence
/// first, accumulated onto `acc` without duplicates. Directives whose
/// close bracket is missing contribute nothing; scanning resumes after
/// the broken opener.
pub open spec fn directives_from(s: Seq<char>, cursor: int, acc: Seq<Seq<char>>) -> Seq<Seq<char>>
    decreases s.len() - cursor,
    via directives_from_decreases
{
    if cursor < 0 || cursor >= s.len() {
        acc
    } else {
        let p = spec_find(s, cursor, directive_prefix());
        if p < 0 {
            acc
        } else {
            let after_prefix = p + directive_prefix().len();
            if after_prefix < s.len() && s[after_prefix] == '{' {
                let q = spec_find(s, after_prefix + 1, directive_brace_close());
                if q < 0 {
                    directives_from(s, after_prefix + 1, acc)
                } else {
                    let w = trimmed(s.subrange(after_prefix + 1, q));
                    directives_from(s, q + 2, directive_push(acc, w))
                }
            } else {
                let q = spec_find(s, after_prefix, seq![']']);
                if q < 0 {
                    directives_from(s, after_prefix, acc)
                } else {
                    let w = trimmed(s.subrange(after_prefix, q));
                    directives_from(s, q + 1, directive_push(acc, w))
                }
            }
        }
    }
}

#[via_fn]
proof fn directives_from_decreases(s: Seq<char>, cursor: int, acc: Seq<Seq<char>>) {
    if 0 <= cursor < s.len() {
        lemma_spec_find_props(s, cursor, directive_prefix());
        let p = spec_find(s, cursor, directive_prefix());
        if p >= 0 {
            let after_prefix = p + directive_prefix().len();
            if after_prefix < s.len() && s[after_prefix] == '{' {
                lemma_spec_find_props(s, after_prefix + 1, directive_brace_close());
            } else {
                lemma_spec_find_props(s, after_prefix, seq![']']);
            }
        }
    }
}

/// All routing-directive targets of the text, in first-occurrence order,
/// de-duplicated.
pub open spec fn spec_parse_send_message_directives(s: Seq<char>) -> Seq<Seq<char>> {
    directives_from(s, 0, Seq::empty())
}

fn all_handle_chars(v: &Vec<char>) -> (r: bool)
    ensures
        r == (forall|k: int| 0 <= k < v@.len() ==> is_handle_char(v@[k])),
{
    let mut i: usize = 0;
    while i < v.len()
        invariant
            i <= v@.len(),
            forall|k: int| 0 <= k < i ==> is_handle_char(v@[k]),
        decreases v@.len() - i,
    {
        if !is_handle_char_exec(v[i]) {
            return false;
        }
        i += 1;
    }
    true
}

fn directive_prefix_exec() -> (r: Vec<char>)
    ensures
        r@ == directive_prefix(),
{
    let s: &str = "[sendMessageTo@@";
    proof {
        reveal_strlit("[sendMessageTo@@");
    }
    let v: Vec<char> = str_to_chars(s);
    assert(v@ =~= directive_prefix());
    v
}

/// Parse `[sendMessageTo@@name]` and `[sendMessageTo@@{name}]` routing
/// directives. Plain `@handle` text never yields a target; names are
/// trimmed, must consist of handle characters, and come in
/// first-occurrence order, de-duplicated.
pub fn parse_send_message_directives(content: &str) -> (r: Vec<String>)
    ensures
        string_views(r@) == spec_parse_send_message_directives(content@),
{
    let chars: Vec<char> = str_to_chars(content);
    let n: usize = chars.len();
    let prefix: Vec<char> = directive_prefix_exec();
    let mut brace_close: Vec<char> = Vec::new();
    brace_close.push('}');
    brace_close.push(']');
    assert(brace_close@ =~= directive_brace_close());
    let mut bracket_close: Vec<char> = Vec::new();
    bracket_close.push(']');
    assert(bracket_close@ =~= seq![']']);

    let mut targets: Vec<String> = Vec::new();
    assert(string_views(targets@) =~= Seq::<Seq<char>>::empty());
    let mut cursor: usize = 0;
    while cursor < n
        invariant
            cursor <= n,
            n == chars@.len(),
            chars@ == content@,
            prefix@ == directive_prefix(),
            brace_close@ == directive_brace_close(),
            bracket_close@ == seq![']'],
            spec_parse_send_message_directives(content@) == directives_from(
                content@,
                cursor as int,
                string_views(targets@),
            ),
        decreases n - cursor,
    {
        let found = find_sub_from(&chars, cursor, &prefix);
        let p: usize = match found {
            Some(p) => {
                proof {
                    lemma_spec_find_some(content@, cursor as int, directive_prefix(), p as int);
                }
                p
            },
            None => {
                proof {
                    lemma_spec_find_none(content@, cursor as int, directive_prefix());
                }
                return targets;
            },
        };
        let after_prefix: usize = p + prefix.len();
        let name_start: usize;
        let name_end: usize;
        let next_cursor: usize;
        if after_prefix < n && chars[after_prefix] == '{' {
            match find_sub_from(&chars, after_prefix + 1, &brace_close) {
                Some(q) => {
                    proof {
                        lemma_spec_find_some(
                            content@,
                            after_prefix + 1,
                            directive_brace_close(),
                            q as int,
                        );
                    }
                    name_start = after_prefix + 1;
                    name_end = q;
                    next_cursor = q + 2;
                },
                None => {
                    proof {
                        lemma_spec_find_none(content@, after_prefix + 1, directive_brace_close());
                    }
                    cursor = after_prefix + 1;
                    continue;
                },
            }
        } else {
            match find_sub_from(&chars, after_prefix, &bracket_close) {
                Some(q) => {
                    proof {
                        lemma_spec_find_some(content@, after_prefix as int, seq![']'], q as int);
                    }
                    name_start = after_prefix;
                    name_end = q;
                    next_cursor = q + 1;
                },
                None => {
                    proof {
                        lemma_spec_find_none(content@, after_prefix as int, seq![']']);
                    }
                    cursor = after_prefix;
                    continue;
                },
            }
        }
        let raw: Vec<char> = crate::text::copy_range(&chars, name_start, name_end);
        let name: Vec<char> = trim_chars(&raw);
        let ghost w = trimmed(content@.subrange(name_start as int, name_end as int));
        assert(name@ == w);
        let ghost old_views = string_views(targets@);
        if name.len() > 0 && all_handle_chars(&name) {
            let name_string: String = chars_to_string(&name);
            if !contains_string(&targets, &name_string) {
                targets.push(name_string);
                assert(string_views(targets@) =~= old_views.push(w));
            }
        }
        cursor = next_cursor;
    }
    targets
}

// ------------------------------------------------------------------
// Laws of the two grammars
// ------------------------------------------------------------------

proof fn lemma_contains_index<A>(q: Seq<A>, k: int)
    requires
        0 <= k < q.len(),
    ensures
        q.contains(q[k]),
{
    let needle = q[k];
    assert(q[k] == needle);
    assert(exists|i: int| 0 <= i < q.len() && q[i] == needle) by {
        assert(0 <= k < q.len() && q[k] == needle);
    }
}

proof fn lemma_run_len_bounds(s: Seq<char>, a: int)
    requires
        0 <= a <= s.len(),
    ensures
        0 <= handle_run_len(s, a) <= s.len() - a,
    decreases s.len() - a,
{
    if a < s.len() && is_handle_char(s[a]) {
        lemma_run_len_bounds(s, a + 1);
    }
}

proof fn lemma_handle_run_chars(s: Seq<char>, a: int, m: int)
    requires
        0 <= a <= s.len(),
        0 <= m < handle_run_len(s, a),
    ensures
        is_handle_char(s[a + m]),
    decreases m,
{
    lemma_run_len_bounds(s, a);
    if m > 0 {
        lemma_handle_run_chars(s, a + 1, m - 1);
    }
}

/// Each mention name is non-empty and consists of handle characters.
pub open spec fn wellformed_handle(w: Seq<char>) -> bool {
    w.len() > 0 && forall|k: int| 0 <= k < w.len() ==> is_handle_char(w[k])
}

proof fn lemma_mentions_from_props(s: Seq<char>, i: int, acc: Seq<Seq<char>>)
    requires
        0 <= i,
    ensures
        acc.no_duplicates() ==> mentions_from(s, i, acc).no_duplicates(),
        forall|k: int|
            0 <= k < mentions_from(s, i, acc).len() ==> acc.contains(
                #[trigger] mentions_from(s, i, acc)[k],
            ) || wellformed_handle(mentions_from(s, i, acc)[k]),
    decreases s.len() - i + 1,
{
    if i >= s.len() {
        assert forall|k: int| 0 <= k < acc.len() implies acc.contains(#[trigger] acc[k]) by {
            lemma_contains_index(acc, k);
        }
    } else if is_mention_start(s, i) && handle_run_len(s, i + 1) > 0 {
        let w = mention_name_at(s, i);
        lemma_run_len_bounds(s, i + 1);
        assert forall|k: int| 0 <= k < w.len() implies is_handle_char(w[k]) by {
            lemma_handle_run_chars(s, i + 1, k);
        }
        assert(wellformed_handle(w));
        let acc2 = if acc.contains(w) {
            acc
        } else {
            acc.push(w)
        };
        assert(acc.no_duplicates() ==> acc2.no_duplicates()) by {
            if acc.no_duplicates() && !acc.contains(w) {
                assert forall|k1: int, k2: int|
                    0 <= k1 < k2 < acc2.len() implies acc2[k1] != acc2[k2] by {
                    if k2 == acc.len() {
                        assert(acc.contains(acc[k1]));
                    }
                }
            }
        }
        lemma_mentions_from_props(s, i + 1, acc2);
        assert(mentions_from(s, i, acc) == mentions_from(s, i + 1, acc2));
        assert forall|k: int|
            0 <= k < mentions_from(s, i, acc).len() && !wellformed_handle(
                mentions_from(s, i, acc)[k],
            ) implies acc.contains(#[trigger] mentions_from(s, i, acc)[k]) by {
            let e = mentions_from(s, i + 1, acc2)[k];
            assert(acc2.contains(e) || wellformed_handle(e));
            if acc2.contains(e) && !acc.contains(e) {
                assert(e == w);
            }
        }
    } else {
        lemma_mentions_from_props(s, i + 1, acc);
        assert(mentions_from(s, i, acc) == mentions_from(s, i + 1, acc));
    }
}

/// The parsed mention list never repeats a handle, and every entry is a
/// non-empty run of handle characters.
pub proof fn lemma_parse_mentions_wellformed(s: Seq<char>)
    ensures
        spec_parse_mentions(s).no_duplicates(),
        forall|k: int|
            0 <= k < spec_parse_mentions(s).len() ==> wellformed_handle(
                #[trigger] spec_parse_mentions(s)[k],
            ),
{
    lemma_mentions_from_props(s, 0, Seq::empty());
    assert forall|k: int|
        0 <= k < spec_parse_mentions(s).len() implies wellformed_handle(
        #[trigger] spec_parse_mentions(s)[k],
    ) by {
        if Seq::<Seq<char>>::empty().contains(spec_parse_mentions(s)[k]) {
            assert(false);
        }
    }
}

proof fn lemma_directives_from_props(s: Seq<char>, cursor: int, acc: Seq<Seq<char>>)
    requires
        0 <= cursor,
    ensures
        acc.no_duplicates() ==> directives_from(s, cursor, acc).no_duplicates(),
        forall|k: int|
            0 <= k < directives_from(s, cursor, acc).len() ==> acc.contains(
                #[trigger] directives_from(s, cursor, acc)[k],
            ) || valid_directive_name(directives_from(s, cursor, acc)[k]),
    decreases s.len() - cursor,
{
    if cursor >= s.len() {
        assert forall|k: int| 0 <= k < acc.len() implies acc.contains(#[trigger] acc[k]) by {
            lemma_contains_index(acc, k);
        }
    } else {
        lemma_spec_find_props(s, cursor, directive_prefix());
        let p = spec_find(s, cursor, directive_prefix());
        if p < 0 {
            assert forall|k: int| 0 <= k < acc.len() implies acc.contains(#[trigger] acc[k]) by {
                lemma_contains_index(acc, k);
            }
        } else {
            let after_prefix = p + directive_prefix().len();
            let brace = after_prefix < s.len() && s[after_prefix] == '{';
            let q = if brace {
                spec_find(s, after_prefix + 1, directive_brace_close())
            } else {
                spec_find(s, after_prefix, seq![']'])
            };
            if brace {
                lemma_spec_find_props(s, after_prefix + 1, directive_brace_close());
            } else {
                lemma_spec_find_props(s, after_prefix, seq![']']);
            }
            let resume = if q < 0 {
                if brace {
                    after_prefix + 1
                } else {
                    after_prefix
                }
            } else {
                if brace {
                    q + 2
                } else {
                    q + 1
                }
            };
            let w = if brace {
                trimmed(s.subrange(after_prefix + 1, q))
            } else {
                trimmed(s.subrange(after_prefix, q))
            };
            let acc2 = if q < 0 {
                acc
            } else {
                directive_push(acc, w)
            };
            assert(acc.no_duplicates() ==> acc2.no_duplicates()) by {
                if acc.no_duplicates() && acc2 != acc && !acc.contains(w) {
                    assert forall|k1: int, k2: int|
                        0 <= k1 < k2 < acc2.len() implies acc2[k1] != acc2[k2] by {
                        if k2 == acc.len() {
                            assert(acc.contains(acc[k1]));
                        }
                    }
                }
            }
            lemma_directives_from_props(s, resume, acc2);
            assert(directives_from(s, cursor, acc) == directives_from(s, resume, acc2));
            assert forall|k: int|
                0 <= k < directives_from(s, cursor, acc).len() && !valid_directive_name(
                    directives_from(s, cursor, acc)[k],
                ) implies acc.contains(#[trigger] directives_from(s, cursor, acc)[k]) by {
                let e = directives_from(s, resume, acc2)[k];
                assert(acc2.contains(e) || valid_directive_name(e));
                if acc2.contains(e) && !acc.contains(e) {
                    assert(e == w);
                }
            }
        }
    }
}

/// The parsed directive-target list never repeats a name, and every entry
/// is a non-empty run of handle characters.
pub proof fn lemma_parse_directives_wellformed(s: Seq<char>)
    ensures
        spec_parse_send_message_directives(s).no_duplicates(),
        forall|k: int|
            0 <= k < spec_parse_send_message_directives(s).len() ==> valid_directive_name(
                #[trigger] spec_parse_send_message_directives(s)[k],
            ),
{
    lemma_directives_from_props(s, 0, Seq::empty());
    assert forall|k: int|
        0 <= k < spec_parse_send_message_directives(s).len() implies valid_directive_name(
        #[trigger] spec_parse_send_message_directives(s)[k],
    ) by {
        if Seq::<Seq<char>>::empty().contains(spec_parse_send_message_directives(s)[k]) {
            assert(false);
        }
    }
}

/// Every directive name the scan accepts, in scan order, duplicates
/// included.
pub open spec fn raw_directive_names(s: Seq<char>, cursor: int) -> Seq<Seq<char>>
    decreases s.len() - cursor,
    via raw_directive_names_decreases
{
    if cursor < 0 || cursor >= s.len() {
        Seq::empty()
    } else {
        let p = spec_find(s, cursor, directive_prefix());
        if p < 0 {
            Seq::empty()
        } else {
            let after_prefix = p + directive_prefix().len();
            if after_prefix < s.len() && s[after_prefix] == '{' {
                let q = spec_find(s, after_prefix + 1, directive_brace_close());
                if q < 0 {
                    raw_directive_names(s, after_prefix + 1)
                } else {
                    let w = trimmed(s.subrange(after_prefix + 1, q));
                    if valid_directive_name(w) {
                        seq![w] + raw_directive_names(s, q + 2)
                    } else {
                        raw_directive_names(s, q + 2)
                    }
                }
            } else {
                let q = spec_find(s, after_prefix, seq![']']);
                if q < 0 {
                    raw_directive_names(s, after_prefix)
                } else {
                    let w = trimmed(s.subrange(after_prefix, q));
                    if valid_directive_name(w) {
                        seq![w] + raw_directive_names(s, q + 1)
                    } else {
                        raw_directive_names(s, q + 1)
                    }
                }
            }
        }
    }
}

#[via_fn]
proof fn raw_directive_names_decreases(s: Seq<char>, cursor: int) {
    if 0 <= cursor < s.len() {
        lemma_spec_find_props(s, cursor, directive_prefix());
        let p = spec_find(s, cursor, directive_prefix());
        if p >= 0 {
            let after_prefix = p + directive_prefix().len();
            if after_prefix < s.len() && s[after_prefix] == '{' {
                lemma_spec_find_props(s, after_prefix + 1, directive_brace_close());
            } else {
                lemma_spec_find_props(s, after_prefix, seq![']']);
            }
        }
    }
}

/// First-occurrence de-duplication: names already seen are dropped,
/// new ones keep their order and join the seen set.
pub open spec fn dedup_first(ns: Seq<Seq<char>>, seen: Seq<Seq<char>>) -> Seq<Seq<char>>
    decreases ns.len(),
{
    if ns.len() == 0 {
        Seq::empty()
    } else if seen.contains(ns.first()) {
        dedup_first(ns.drop_first(), seen)
    } else {
        seq![ns.first()] + dedup_first(ns.drop_first(), seen.push(ns.first()))
    }
}

proof fn lemma_directives_are_deduped_scan(s: Seq<char>, cursor: int, acc: Seq<Seq<char>>)
    requires
        0 <= cursor,
    ensures
        directives_from(s, cursor, acc) == acc + dedup_first(raw_directive_names(s, cursor), acc),
    decreases s.len() - cursor,
{
    if cursor >= s.len() {
        assert(acc + dedup_first(Seq::empty(), acc) =~= acc);
    } else {
        lemma_spec_find_props(s, cursor, directive_prefix());
        let p = spec_find(s, cursor, directive_prefix());
        if p < 0 {
            assert(acc + dedup_first(Seq::empty(), acc) =~= acc);
        } else {
            let after_prefix = p + directive_prefix().len();
            let brace = after_prefix < s.len() && s[after_prefix] == '{';
            if brace {
                lemma_spec_find_props(s, after_prefix + 1, directive_brace_close());
            } else {
                lemma_spec_find_props(s, after_prefix, seq![']']);
            }
            let q = if brace {
                spec_find(s, after_prefix + 1, directive_brace_close())
            } else {
                spec_find(s, after_prefix, seq![']'])
            };
            if q < 0 {
                let resume = if brace {
                    after_prefix + 1
                } else {
                    after_prefix
                };
                lemma_directives_are_deduped_scan(s, resume, acc);
            } else {
                let w = if brace {
                    trimmed(s.subrange(after_prefix + 1, q))
                } else {
                    trimmed(s.subrange(after_prefix, q))
                };
                let resume = if brace {
                    q + 2
                } else {
                    q + 1
                };
                let raw = raw_directive_names(s, cursor);
                if valid_directive_name(w) {
                    assert(raw == seq![w] + raw_directive_names(s, resume));
                    assert(raw.first() == w);
                    assert(raw.drop_first() =~= raw_directive_names(s, resume));
                    if acc.contains(w) {
                        lemma_directives_are_deduped_scan(s, resume, acc);
                        assert(directives_from(s, cursor, acc) == directives_from(s, resume, acc));
                    } else {
                        lemma_directives_are_deduped_scan(s, resume, acc.push(w));
                        assert(directives_from(s, cursor, acc) == directives_from(
                            s,
                            resume,
                            acc.push(w),
                        ));
                        assert(acc + (seq![w] + dedup_first(
                            raw_directive_names(s, resume),
                            acc.push(w),
                        )) =~= acc.push(w) + dedup_first(raw_directive_names(s, resume), acc.push(w)));
                    }
                } else {
                    assert(raw =~= raw_directive_names(s, resume));
                    lemma_directives_are_deduped_scan(s, resume, acc);
                    assert(directives_from(s, cursor, acc) == directives_from(s, resume, acc));
                }
            }
        }
    }
}

/// Targets come out in first-occurrence order: the parsed list is
/// exactly the scan's accepted names with every later duplicate
/// removed, order kept.
pub proof fn lemma_parse_directives_first_occurrence_order(s: Seq<char>)
    ensures
        spec_parse_send_message_directives(s) == dedup_first(
            raw_directive_names(s, 0),
            Seq::empty(),
        ),
{
    lemma_directives_are_deduped_scan(s, 0, Seq::empty());
    assert(Seq::<Seq<char>>::empty() + dedup_first(raw_directive_names(s, 0), Seq::empty())
        =~= dedup_first(raw_directive_names(s, 0), Seq::empty()));
}

/// Text without a `[sendMessageTo@@` opener yields no directive targets,
/// however many plain `@handle` mentions or stray brackets it holds.
pub proof fn lemma_directives_ignore_plain_mentions(s: Seq<char>)
    requires
        !contains_seq(s, directive_prefix()),
    ensures
        spec_parse_send_message_directives(s) == Seq::<Seq<char>>::empty(),
{
    if s.len() > 0 {
        assert forall|j: int| 0 <= j implies !matches_at(s, j, directive_prefix()) by {
            if matches_at(s, j, directive_prefix()) {
                assert(contains_seq(s, directive_prefix()));
            }
        }
        lemma_spec_find_none(s, 0, directive_prefix());
    }
}

// ------------------------------------------------------------------
// Whitespace and trimming
// ------------------------------------------------------------------

/// Whether a non-ASCII character has the Unicode White_Space property.
/// The ASCII range is fixed by `is_unicode_whitespace` below.
pub uninterp spec fn is_unicode_space_nonascii(c: char) -> bool;

pub open spec fn is_ascii_space(c: char) -> bool {
    c == ' ' || c == '\t' || c == '\n' || c == '\r' || c == '\u{b}' || c == '\u{c}'
}

/// The Unicode White_Space property; on ASCII it is exactly space,
/// tab, line feed, vertical tab, form feed and carriage return.
pub open spec fn is_unicode_whitespace(c: char) -> bool {
    if crate::text::is_ascii_char(c) {
        is_ascii_space(c)
    } else {
        is_unicode_space_nonascii(c)
    }
}

/// Relies on char::is_whitespace: the Unicode White_Space property, a
/// fixed property of the character; on ASCII characters it holds exactly
/// for the six ASCII whitespace characters.
#[verifier::external_body]
pub fn char_is_whitespace(c: char) -> (r: bool)
    ensures
        r == is_unicode_whitespace(c),
        !crate::text::is_ascii_char(c) ==> r == is_unicode_space_nonascii(c),
{
    c.is_whitespace()
}

pub open spec fn ltrim(s: Seq<char>) -> Seq<char>
    decreases s.len(),
{
    if s.len() > 0 && is_unicode_whitespace(s[0]) {
        ltrim(s.drop_first())
    } else {
        s
    }
}

pub open spec fn rtrim(s: Seq<char>) -> Seq<char>
    decreases s.len(),
{
    if s.len() > 0 && is_unicode_whitespace(s.last()) {
        rtrim(s.drop_last())
    } else {
        s
    }
}

/// The text with leading and trailing Unicode whitespace removed.
pub open spec fn trimmed(s: Seq<char>) -> Seq<char> {
    rtrim(ltrim(s))
}

proof fn lemma_ltrim(s: Seq<char>, a: int)
    requires
        0 <= a <= s.len(),
        forall|m: int| 0 <= m < a ==> is_unicode_whitespace(s[m]),
        a == s.len() || !is_unicode_whitespace(s[a]),
    ensures
        ltrim(s) == s.subrange(a, s.len() as int),
    decreases a,
{
    if a == 0 {
        assert(s.subrange(0, s.len() as int) =~= s);
    } else {
        assert(is_unicode_whitespace(s[0]));
        lemma_ltrim(s.drop_first(), a - 1);
        assert(s.drop_first().subrange(a - 1, s.drop_first().len() as int) =~= s.subrange(
            a,
            s.len() as int,
        ));
    }
}

proof fn lemma_rtrim(s: Seq<char>, b: int)
    requires
        0 <= b <= s.len(),
        forall|m: int| b <= m < s.len() ==> is_unicode_whitespace(s[m]),
        b == 0 || !is_unicode_whitespace(s[b - 1]),
    ensures
        rtrim(s) == s.subrange(0, b),
    decreases s.len() - b,
{
    if b == s.len() {
        assert(s.subrange(0, s.len() as int) =~= s);
    } else {
        assert(is_unicode_whitespace(s.last()));
        lemma_rtrim(s.drop_last(), b);
        assert(s.drop_last().subrange(0, b) =~= s.subrange(0, b));
    }
}

/// Copy of the text with leading and trailing whitespace removed.
pub fn trim_chars(s: &Vec<char>) -> (r: Vec<char>)
    ensures
        r@ == trimmed(s@),
{
    let n: usize = s.len();
    let mut a: usize = 0;
    while a < n && char_is_whitespace(s[a])
        invariant
            a <= n,
            n == s@.len(),
            forall|m: int| 0 <= m < a ==> is_unicode_whitespace(s@[m]),
        ensures
            a <= n,
            forall|m: int| 0 <= m < a ==> is_unicode_whitespace(s@[m]),
            a == n || !is_unicode_whitespace(s@[a as int]),
        decreases n - a,
    {
        a += 1;
    }
    proof {
        lemma_ltrim(s@, a as int);
    }
    let mut b: usize = n;
    while b > a && char_is_whitespace(s[b - 1])
        invariant
            a <= b <= n,
            n == s@.len(),
            forall|m: int| b <= m < n ==> is_unicode_whitespace(s@[m]),
        ensures
            a <= b <= n,
            forall|m: int| b <= m < n ==> is_unicode_whitespace(s@[m]),
            b == a || !is_unicode_whitespace(s@[b - 1]),
        decreases b,
    {
        b -= 1;
    }
    let ghost mid = s@.subrange(a as int, n as int);
    proof {
        if b == a {
            lemma_rtrim(mid, 0);
        } else {
            lemma_rtrim(mid, b - a);
        }
        assert(mid.subrange(0, b - a) =~= s@.subrange(a as int, b as int));
    }
    let mut out: Vec<char> = Vec::new();
    let mut k: usize = a;
    while k < b
        invariant
            a <= k <= b <= n,
            n == s@.len(),
            out@ == s@.subrange(a as int, k as int),
        decreases b - k,
    {
        out.push(s[k]);
        assert(out@ =~= s@.subrange(a as int, k + 1));
        k += 1;
    }
    out
}

} // verus!

//! Runner types and automatic model variants.
//!
//! Runner strings normalize dashes and spaces to underscores and
//! uppercase before parsing; discovered models are mirrored into
//! `AUTO_MODEL_` variant keys of an executor's configuration map.

use vstd::prelude::*;

use crate::mentions::trimmed;
use crate::text::{chars_to_string, str_to_chars, matches_at};

verus! {

/// The closed set of coding-assistant runners.
#[derive(Clone, Copy, Debug, PartialEq, Eq, Structural)]
pub enum BaseCodingAgent {
    ClaudeCode,
    Codex,
    Gemini,
    Opencode,
    CursorAgent,
    Copilot,
    Droid,
    Kimi,
}

/// A runner-string character after normalization: dashes and spaces
/// become underscores, ASCII letters uppercase.
pub open spec fn spec_runner_char(c: char) -> char {
    if c == '-' || c == ' ' {
        '_'
    } else if 'a' <= c && c <= 'z' {
        (((c as u8) - 32) as char)
    } else {
        c
    }
}

/// The normalized form of a runner string: trimmed, separators
/// underscored, uppercased.
pub open spec fn spec_normalized_runner(raw: Seq<char>) -> Seq<char> {
    trimmed(raw).map_values(|c: char| spec_runner_char(c))
}

/// The runner a normalized string names, if any.
pub open spec fn spec_runner_of(normalized: Seq<char>) -> Option<BaseCodingAgent> {
    if normalized == "CLAUDE_CODE"@ {
        Some(BaseCodingAgent::ClaudeCode)
    } else if normalized == "CODEX"@ {
        Some(BaseCodingAgent::Codex)
    } else if normalized == "GEMINI"@ {
        Some(BaseCodingAgent::Gemini)
    } else if normalized == "OPENCODE"@ {
        Some(BaseCodingAgent::Opencode)
    } else if normalized == "CURSOR_AGENT"@ {
        Some(BaseCodingAgent::CursorAgent)
    } else if normalized == "COPILOT"@ {
        Some(BaseCodingAgent::Copilot)
    } else if normalized == "DROID"@ {
        Some(BaseCodingAgent::Droid)
    } else if normalized == "KIMI"@ {
        Some(BaseCodingAgent::Kimi)
    } else {
        None
    }
}

/// First value stored under this key in a flat settings map.
pub open spec fn spec_pair_value(pairs: Seq<(String, String)>, key: Seq<char>) -> Option<Seq<char>>
    decreases pairs.len(),
{
    if pairs.len() == 0 {
        None
    } else if pairs[0].0@ == key {
        Some(pairs[0].1@)
    } else {
        spec_pair_value(pairs.drop_first(), key)
    }
}

fn normalize_runner(raw: &str) -> (r: String)
    ensures
        r@ == spec_normalized_runner(raw@),
{
    let cs: Vec<char> = str_to_chars(raw);
    let t: Vec<char> = crate::mentions::trim_chars(&cs);
    let mut out: Vec<char> = Vec::new();
    let mut i: usize = 0;
    while i < t.len()
        invariant
            i <= t@.len(),
            t@ == trimmed(raw@),
            out@.len() == i,
            forall|k: int| 0 <= k < i ==> out@[k] == spec_runner_char(t@[k]),
        decreases t@.len() - i,
    {
        let c: char = t[i];
        let mapped: char = if c == '-' || c == ' ' {
            '_'
        } else if 'a' <= c && c <= 'z' {
            (((c as u8) - 32) as char)
        } else {
            c
        };
        out.push(mapped);
        i += 1;
    }
    assert(out@ =~= spec_normalized_runner(raw@));
    chars_to_string(&out)
}

/// Parse an agent's runner string: trim, underscore separators,
/// uppercase, and match against the closed runner set.
pub fn parse_runner_type(raw: &str) -> (r: Option<BaseCodingAgent>)
    ensures
        r == spec_runner_of(spec_normalized_runner(raw@)),
{
    let normalized: String = normalize_runner(raw);
    let n: &str = normalized.as_str();
    if crate::text::str_eq(n, "CLAUDE_CODE") {
        Some(BaseCodingAgent::ClaudeCode)
    } else if crate::text::str_eq(n, "CODEX") {
        Some(BaseCodingAgent::Codex)
    } else if crate::text::str_eq(n, "GEMINI") {
        Some(BaseCodingAgent::Gemini)
    } else if crate::text::str_eq(n, "OPENCODE") {
        Some(BaseCodingAgent::Opencode)
    } else if crate::text::str_eq(n, "CURSOR_AGENT") {
        Some(BaseCodingAgent::CursorAgent)
    } else if crate::text::str_eq(n, "COPILOT") {
        Some(BaseCodingAgent::Copilot)
    } else if crate::text::str_eq(n, "DROID") {
        Some(BaseCodingAgent::Droid)
    } else if crate::text::str_eq(n, "KIMI") {
        Some(BaseCodingAgent::Kimi)
    } else {
        None
    }
}

/// The canonical form of a variant key: trimmed, separators
/// underscored, uppercased.
pub fn canonical_variant_key(raw: &str) -> (r: String)
    ensures
        r@ == spec_normalized_runner(raw@),
{
    normalize_runner(raw)
}

/// The profile variant an agent's tool settings select, if any: the
/// `executor_profile_variant` entry, trimmed; empty and `DEFAULT`
/// (case-insensitively) mean none; anything else is canonicalized.
pub fn extract_executor_profile_variant(tools_enabled: &Vec<(String, String)>) -> (r: Option<
    String,
>)
    ensures
        match spec_pair_value(tools_enabled@, "executor_profile_variant"@) {
            Some(v) => if trimmed(v).len() == 0 || crate::text::ascii_lowercase_of(trimmed(v))
                == crate::text::ascii_lowercase_of("DEFAULT"@) {
                r is None
            } else {
                r is Some && r->Some_0@ == spec_normalized_runner(v)
            },
            None => r is None,
        },
{
    let raw: String = match lookup_pair(tools_enabled, "executor_profile_variant") {
        Some(v) => v,
        None => {
            return None;
        },
    };
    let cs: Vec<char> = str_to_chars(raw.as_str());
    let t: Vec<char> = crate::mentions::trim_chars(&cs);
    if t.len() == 0 {
        return None;
    }
    let t_str: String = chars_to_string(&t);
    if crate::text::ascii_ci_eq(t_str.as_str(), "DEFAULT") {
        return None;
    }
    Some(canonical_variant_key(raw.as_str()))
}

fn lookup_pair(pairs: &Vec<(String, String)>, key: &str) -> (r: Option<String>)
    ensures
        match spec_pair_value(pairs@, key@) {
            Some(v) => r is Some && r->Some_0@ == v,
            None => r is None,
        },
{
    let ghost all = pairs@;
    let mut i: usize = 0;
    assert(all.skip(0) =~= all);
    while i < pairs.len()
        invariant
            i <= pairs@.len(),
            all == pairs@,
            spec_pair_value(all, key@) == spec_pair_value(all.skip(i as int), key@),
        decreases pairs@.len() - i,
    {
        assert(all.skip(i as int).first() == all[i as int]);
        if crate::text::str_eq(pairs[i].0.as_str(), key) {
            return Some(pairs[i].1.clone());
        }
        assert(all.skip(i as int).drop_first() =~= all.skip(i as int + 1));
        i += 1;
    }
    assert(all.skip(all.len() as int) =~= Seq::<(String, String)>::empty());
    None
}

/// One concrete executor configuration: a runner and its model.
#[derive(Debug)]
pub struct CodingAgentConfig {
    pub agent: BaseCodingAgent,
    pub model: Option<String>,
}

impl Clone for CodingAgentConfig {
    fn clone(&self) -> (r: Self)
        ensures
            r.agent == self.agent,
            match (&r.model, &self.model) {
                (Some(a), Some(b)) => a@ == b@,
                (None, None) => true,
                _ => false,
            },
    {
        CodingAgentConfig {
            agent: self.agent,
            model: crate::model::clone_opt_string(&self.model),
        }
    }
}

/// Whether a runner accepts a model override.
pub open spec fn spec_supports_model(agent: BaseCodingAgent) -> bool {
    agent != BaseCodingAgent::Kimi
}

/// Whether this configuration's runner accepts a model override.
pub fn supports_model(config: &CodingAgentConfig) -> (r: bool)
    ensures
        r == spec_supports_model(config.agent),
{
    !matches!(config.agent, BaseCodingAgent::Kimi)
}

/// The configuration with its model replaced, for runners that accept
/// one.
pub fn with_model(config: &CodingAgentConfig, model: &str) -> (r: Option<CodingAgentConfig>)
    ensures
        spec_supports_model(config.agent) ==> r is Some && r->Some_0.agent == config.agent
            && r->Some_0.model is Some && r->Some_0.model->Some_0@ == model@,
        !spec_supports_model(config.agent) ==> r is None,
{
    if matches!(config.agent, BaseCodingAgent::Kimi) {
        return None;
    }
    Some(CodingAgentConfig { agent: config.agent, model: Some(model.to_owned()) })
}

/// The automatic variant key of a discovered model:
/// `AUTO_MODEL_` followed by the canonical model key.
pub fn auto_variant_key(model: &str) -> (r: String)
    ensures
        r@ == "AUTO_MODEL_"@ + spec_normalized_runner(model@),
{
    let mut out: String = "AUTO_MODEL_".to_owned();
    out.append(canonical_variant_key(model).as_str());
    out
}

/// One executor's configuration map: variant keys to concrete
/// configurations, with the key of the default variant when one is set.
#[derive(Debug)]
pub struct ExecutorConfig {
    pub default_key: Option<String>,
    pub configurations: Vec<(String, CodingAgentConfig)>,
}

/// A key names an automatically managed model variant.
pub open spec fn spec_is_auto_key(key: Seq<char>) -> bool {
    matches_at(key, 0, "AUTO_MODEL_"@)
}

/// The automatic variant key of a model.
pub open spec fn spec_auto_key(model: Seq<char>) -> Seq<char> {
    "AUTO_MODEL_"@ + spec_normalized_runner(model)
}

/// A configuration map holds an entry under this key.
pub open spec fn spec_has_key(entries: Seq<(String, CodingAgentConfig)>, key: Seq<char>) -> bool {
    exists|k: int| 0 <= k < entries.len() && (#[trigger] entries[k]).0@ == key
}

/// Mirror the discovered models of an executor into its automatic
/// variants: stale `AUTO_MODEL_` entries disappear, every discovered
/// model gets an entry keyed by its automatic key, and nothing happens
/// at all when the executor has no base configuration or its runner
/// takes no model. The result says whether anything changed; an
/// unchanged map is returned exactly as it was.
pub fn upsert_model_variants(config: &mut ExecutorConfig, models: &Vec<String>) -> (r: bool)
    ensures
        !r ==> *final(config) == *old(config),
        ({
            let base = spec_base_config(*old(config));
            match base {
                None => !r,
                Some(b) => if !spec_supports_model(b.agent) {
                    !r
                } else {
                    &&& forall|k: int|
                        0 <= k < final(config).configurations@.len() && spec_is_auto_key(
                            (#[trigger] final(config).configurations@[k]).0@,
                        ) ==> exists|j: int|
                            0 <= j < models@.len() && final(config).configurations@[k].0@
                                == spec_auto_key((#[trigger] models@[j])@)
                    &&& forall|j: int|
                        0 <= j < models@.len() ==> spec_has_key(
                            final(config).configurations@,
                            spec_auto_key((#[trigger] models@[j])@),
                        )
                },
            }
        }),
{
    let base: CodingAgentConfig = match base_config(config) {
        Some(b) => b,
        None => {
            return false;
        },
    };
    if !supports_model(&base) {
        return false;
    }

    let mut changed: bool = false;

    // drop stale automatic variants
    let mut i: usize = 0;
    while i < config.configurations.len()
        invariant
            i <= config.configurations@.len(),
            !changed ==> *config == *old(config),
            forall|k: int|
                0 <= k < i && spec_is_auto_key((#[trigger] config.configurations@[k]).0@)
                    ==> exists|j: int|
                    0 <= j < models@.len() && config.configurations@[k].0@ == spec_auto_key(
                        (#[trigger] models@[j])@,
                    ),
        decreases config.configurations@.len() - i,
    {
        let key_is_auto: bool = is_auto_variant_key(config.configurations[i].0.as_str());
        if key_is_auto {
            let mut desired: bool = false;
            let mut j: usize = 0;
            while j < models.len()
                invariant
                    j <= models@.len(),
                    i < config.configurations@.len(),
                    desired ==> exists|j2: int|
                        0 <= j2 < models@.len() && config.configurations@[i as int].0@
                            == spec_auto_key((#[trigger] models@[j2])@),
                decreases models@.len() - j,
            {
                let auto: String = auto_variant_key(models[j].as_str());
                if crate::text::str_eq(config.configurations[i].0.as_str(), auto.as_str()) {
                    proof {
                        assert(config.configurations@[i as int].0@ == spec_auto_key(
                            models@[j as int]@,
                        ));
                    }
                    desired = true;
                }
                j += 1;
            }
            if !desired {
                let _ = config.configurations.remove(i);
                changed = true;
                continue;
            }
        }
        i += 1;
    }

    // bring every discovered model in
    let mut m: usize = 0;
    while m < models.len()
        invariant
            m <= models@.len(),
            !changed ==> *config == *old(config),
            spec_supports_model(base.agent),
            forall|k: int|
                0 <= k < config.configurations@.len() && spec_is_auto_key(
                    (#[trigger] config.configurations@[k]).0@,
                ) ==> exists|j: int|
                    0 <= j < models@.len() && config.configurations@[k].0@ == spec_auto_key(
                        (#[trigger] models@[j])@,
                    ),
            forall|j: int|
                0 <= j < m ==> spec_has_key(
                    config.configurations@,
                    spec_auto_key((#[trigger] models@[j])@),
                ),
        decreases models@.len() - m,
    {
        let key: String = auto_variant_key(models[m].as_str());
        let next: CodingAgentConfig = match with_model(&base, models[m].as_str()) {
            Some(c) => c,
            None => {
                proof {
                    assert(false);
                }
                m += 1;
                continue;
            },
        };
        let mut found: bool = false;
        let mut p: usize = 0;
        loop
            invariant_except_break
                p <= config.configurations@.len(),
                !found,
            ensures
                found ==> p < config.configurations@.len()
                    && config.configurations@[p as int].0@ == key@,
            decreases config.configurations@.len() - p,
        {
            if p == config.configurations.len() {
                break;
            }
            if crate::text::str_eq(config.configurations[p].0.as_str(), key.as_str()) {
                found = true;
                break;
            }
            p += 1;
        }
        if found {
            let same: bool = config_matches(&config.configurations[p].1, &next);
            if !same {
                let ghost before = config.configurations@;
                config.configurations.set(p, (key, next));
                changed = true;
                proof {
                    lemma_update_keeps_keys(before, config.configurations@, p as int, models@);
                    assert(config.configurations@[p as int].0@ == spec_auto_key(
                        models@[m as int]@,
                    ));
                    assert(spec_has_key(
                        config.configurations@,
                        spec_auto_key(models@[m as int]@),
                    ));
                }
            } else {
                proof {
                    assert(config.configurations@[p as int].0@ == spec_auto_key(
                        models@[m as int]@,
                    ));
                    assert(spec_has_key(
                        config.configurations@,
                        spec_auto_key(models@[m as int]@),
                    ));
                }
            }
        } else {
            let ghost before = config.configurations@;
            config.configurations.push((key, next));
            changed = true;
            proof {
                lemma_push_keeps_keys(before, config.configurations@, models@);
                assert(config.configurations@.last().0@ == spec_auto_key(models@[m as int]@));
                assert(spec_has_key(config.configurations@, spec_auto_key(models@[m as int]@)));
            }
        }
        proof {
            assert(spec_has_key(config.configurations@, spec_auto_key(models@[m as int]@)));
        }
        m += 1;
    }
    changed
}

/// The base configuration of an executor: its default variant, else
/// its first configuration.
pub open spec fn spec_base_config(config: ExecutorConfig) -> Option<CodingAgentConfig> {
    match config.default_key {
        Some(k) => match spec_config_value(config.configurations@, k@) {
            Some(c) => Some(c),
            None => spec_first_config(config.configurations@),
        },
        None => spec_first_config(config.configurations@),
    }
}

pub open spec fn spec_first_config(entries: Seq<(String, CodingAgentConfig)>) -> Option<
    CodingAgentConfig,
> {
    if entries.len() == 0 {
        None
    } else {
        Some(entries[0].1)
    }
}

pub open spec fn spec_config_value(
    entries: Seq<(String, CodingAgentConfig)>,
    key: Seq<char>,
) -> Option<CodingAgentConfig>
    decreases entries.len(),
{
    if entries.len() == 0 {
        None
    } else if entries[0].0@ == key {
        Some(entries[0].1)
    } else {
        spec_config_value(entries.drop_first(), key)
    }
}

fn base_config(config: &ExecutorConfig) -> (r: Option<CodingAgentConfig>)
    ensures
        match r {
            Some(b) => spec_base_config(*config) is Some && b.agent == spec_base_config(
                *config,
            )->Some_0.agent,
            None => spec_base_config(*config) is None,
        },
{
    if let Some(k) = &config.default_key {
        let mut i: usize = 0;
        let ghost all = config.configurations@;
        proof {
            assert(all.skip(0) =~= all);
        }
        while i < config.configurations.len()
            invariant
                i <= config.configurations@.len(),
                all == config.configurations@,
                match config.default_key {
                    Some(dk) => dk@ == k@,
                    None => false,
                },
                spec_config_value(all, k@) == spec_config_value(all.skip(i as int), k@),
            decreases config.configurations@.len() - i,
        {
            assert(all.skip(i as int).first() == all[i as int]);
            if crate::text::str_eq(config.configurations[i].0.as_str(), k.as_str()) {
                assert(spec_config_value(all.skip(i as int), k@) == Some(all[i as int].1));
                return Some(config.configurations[i].1.clone());
            }
            assert(all.skip(i as int).drop_first() =~= all.skip(i as int + 1));
            i += 1;
        }
        proof {
            assert(all.skip(all.len() as int) =~= Seq::<(String, CodingAgentConfig)>::empty());
        }
    }
    if config.configurations.len() > 0 {
        return Some(config.configurations[0].1.clone());
    }
    None
}

fn config_matches(a: &CodingAgentConfig, b: &CodingAgentConfig) -> (r: bool)
{
    if !matches!((a.agent, b.agent), (BaseCodingAgent::ClaudeCode, BaseCodingAgent::ClaudeCode)
        | (BaseCodingAgent::Codex, BaseCodingAgent::Codex)
        | (BaseCodingAgent::Gemini, BaseCodingAgent::Gemini)
        | (BaseCodingAgent::Opencode, BaseCodingAgent::Opencode)
        | (BaseCodingAgent::CursorAgent, BaseCodingAgent::CursorAgent)
        | (BaseCodingAgent::Copilot, BaseCodingAgent::Copilot)
        | (BaseCodingAgent::Droid, BaseCodingAgent::Droid)
        | (BaseCodingAgent::Kimi, BaseCodingAgent::Kimi)) {
        return false;
    }
    match (&a.model, &b.model) {
        (Some(x), Some(y)) => x.eq(y),
        (None, None) => true,
        _ => false,
    }
}

proof fn lemma_update_keeps_keys(
    before: Seq<(String, CodingAgentConfig)>,
    after: Seq<(String, CodingAgentConfig)>,
    p: int,
    models: Seq<String>,
)
    requires
        0 <= p < before.len(),
        after =~= before.update(p, after[p]),
        after.len() == before.len(),
        after[p].0@ == before[p].0@,
    ensures
        forall|key: Seq<char>| spec_has_key(before, key) ==> #[trigger] spec_has_key(after, key),
{
    assert forall|key: Seq<char>| spec_has_key(before, key) implies #[trigger] spec_has_key(
        after,
        key,
    ) by {
        let k = choose|k: int| 0 <= k < before.len() && before[k].0@ == key;
        assert(after[k].0@ == key);
    }
}

proof fn lemma_push_keeps_keys(
    before: Seq<(String, CodingAgentConfig)>,
    after: Seq<(String, CodingAgentConfig)>,
    models: Seq<String>,
)
    requires
        after =~= before.push(after.last()),
        after.len() == before.len() + 1,
    ensures
        forall|key: Seq<char>| spec_has_key(before, key) ==> #[trigger] spec_has_key(after, key),
{
    assert forall|key: Seq<char>| spec_has_key(before, key) implies #[trigger] spec_has_key(
        after,
        key,
    ) by {
        let k = choose|k: int| 0 <= k < before.len() && before[k].0@ == key;
        assert(after[k].0@ == key);
    }
}

/// Whether a variant key is automatically managed.
pub fn is_auto_variant_key(key: &str) -> (r: bool)
    ensures
        r == matches_at(key@, 0, "AUTO_MODEL_"@),
{
    let cs: Vec<char> = str_to_chars(key);
    let needle: Vec<char> = str_to_chars("AUTO_MODEL_");
    if needle.len() > cs.len() {
        return false;
    }
    crate::text::range_eq(&cs, 0, &needle)
}

} // verus!

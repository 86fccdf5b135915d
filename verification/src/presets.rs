//! The built-in member and team catalog, and the chat compression
//! settings.
//!
//! Role prompts share one scaffold: the collaboration protocol, common
//! inputs, outputs, workflow and boundaries, and a per-role focus and
//! definition of done.

use vstd::prelude::*;

use crate::text::{chars_to_string, u64_to_dec, dec_digits};

verus! {

/// Chat member preset template.
#[derive(Debug)]
pub struct ChatMemberPreset {
    /// Unique identifier for the preset.
    pub id: String,
    /// Display name (also used as the mention handle).
    pub name: String,
    /// Description of the preset's purpose.
    pub description: String,
    /// Optional runner type (absent means use the default).
    pub runner_type: Option<String>,
    /// System prompt defining the agent's behavior.
    pub system_prompt: String,
    /// Optional default workspace path.
    pub default_workspace_path: Option<String>,
    /// Tool settings for this preset, as flat key-value pairs.
    pub tools_enabled: Vec<(String, String)>,
    /// Whether this is a built-in preset (cannot be deleted).
    pub is_builtin: bool,
    /// Whether this preset is enabled (visible for import).
    pub enabled: bool,
}

/// Chat team preset template.
#[derive(Debug)]
pub struct ChatTeamPreset {
    /// Unique identifier for the preset.
    pub id: String,
    /// Display name of the team.
    pub name: String,
    /// Description of the team's purpose.
    pub description: String,
    /// Member preset ids included in this team.
    pub member_ids: Vec<String>,
    /// Whether this is a built-in preset (cannot be deleted).
    pub is_builtin: bool,
    /// Whether this preset is enabled (visible for import).
    pub enabled: bool,
}

/// Chat presets configuration: the member and team catalogs.
#[derive(Debug)]
pub struct ChatPresetsConfig {
    pub members: Vec<ChatMemberPreset>,
    pub teams: Vec<ChatTeamPreset>,
}

/// Chat compression configuration.
#[derive(Debug, Clone, PartialEq)]
pub struct ChatCompressionConfig {
    /// Token threshold before compression kicks in.
    pub token_threshold: u32,
    /// Percentage of tokens to compress.
    pub compression_percentage: u8,
}

/// Default token threshold before compression kicks in.
pub fn default_token_threshold() -> (r: u32)
    ensures
        r == 10000000u32,
{
    10000000
}

/// Default percentage of tokens to compress.
pub fn default_compression_percentage() -> (r: u8)
    ensures
        r == 25u8,
{
    25
}

impl Default for ChatCompressionConfig {
    /// The default compression settings.
    fn default() -> (r: Self)
        ensures
            r.token_threshold == 10000000u32,
            r.compression_percentage == 25u8,
    {
        ChatCompressionConfig { token_threshold: 10000000, compression_percentage: 25 }
    }
}

/// The default compression settings.
pub fn default_chat_compression() -> (r: ChatCompressionConfig)
    ensures
        r.token_threshold == 10000000u32,
        r.compression_percentage == 25u8,
{
    ChatCompressionConfig { token_threshold: 10000000, compression_percentage: 25 }
}

/// Default for boolean settings that start switched on.
pub fn default_true() -> (r: bool)
    ensures
        r == true,
{
    true
}

/// Default branch prefix for generated git branches.
pub fn default_git_branch_prefix() -> (r: String)
    ensures
        r@ == "vk"@,
{
    "vk".to_owned()
}

/// Automatic pull-request descriptions start enabled.
pub fn default_pr_auto_description_enabled() -> (r: bool)
    ensures
        r == true,
{
    true
}

/// The commit reminder starts enabled.
pub fn default_commit_reminder_enabled() -> (r: bool)
    ensures
        r == true,
{
    true
}

/// The items each prefixed with `- `, joined by line feeds.
pub open spec fn spec_bullets(items: Seq<Seq<char>>, k: int) -> Seq<char>
    decreases k,
{
    if k <= 0 {
        Seq::empty()
    } else if k == 1 {
        "- "@ + items[0]
    } else {
        spec_bullets(items, k - 1) + "\n- "@ + items[k - 1]
    }
}

/// Render items as a bulleted list.
pub fn format_bullets(items: &Vec<&'static str>) -> (r: String)
    ensures
        r@ == spec_bullets(items@.map_values(|s: &'static str| s@), items@.len() as int),
{
    let ghost views = items@.map_values(|s: &'static str| s@);
    let mut out: String = String::new();
    let mut i: usize = 0;
    assert(out@ =~= spec_bullets(views, 0));
    while i < items.len()
        invariant
            i <= items@.len(),
            views == items@.map_values(|s: &'static str| s@),
            out@ == spec_bullets(views, i as int),
        decreases items@.len() - i,
    {
        if i == 0 {
            out.append("- ");
        } else {
            out.append("\n- ");
        }
        out.append(items[i]);
        proof {
            assert(views[i as int] == items@[i as int]@);
            if i == 0 {
                assert(Seq::<char>::empty() + "- "@ =~= "- "@);
            }
        }
        i += 1;
    }
    out
}

/// The items numbered from one, `N. item`, joined by line feeds.
pub open spec fn spec_steps(items: Seq<Seq<char>>, k: int) -> Seq<char>
    decreases k,
{
    if k <= 0 {
        Seq::empty()
    } else if k == 1 {
        dec_digits(1) + ". "@ + items[0]
    } else {
        spec_steps(items, k - 1) + "\n"@ + dec_digits(k as nat) + ". "@ + items[k - 1]
    }
}

/// Render items as a numbered list.
pub fn format_steps(items: &Vec<&'static str>) -> (r: String)
    ensures
        r@ == spec_steps(items@.map_values(|s: &'static str| s@), items@.len() as int),
{
    let ghost views = items@.map_values(|s: &'static str| s@);
    let mut out: String = String::new();
    let mut i: usize = 0;
    assert(out@ =~= spec_steps(views, 0));
    while i < items.len()
        invariant
            i <= items@.len(),
            views == items@.map_values(|s: &'static str| s@),
            out@ == spec_steps(views, i as int),
        decreases items@.len() - i,
    {
        if i > 0 {
            out.append("\n");
        }
        let number: Vec<char> = u64_to_dec((i + 1) as u64);
        out.append(chars_to_string(&number).as_str());
        out.append(". ");
        out.append(items[i]);
        proof {
            assert(views[i as int] == items@[i as int]@);
            if i == 0 {
                assert(Seq::<char>::empty() + dec_digits(1) =~= dec_digits(1));
            }
        }
        i += 1;
    }
    out
}

/// The shared collaboration protocol embedded in every role prompt.
pub open spec fn spec_team_collab_protocol() -> Seq<char> {
    "[Team Collaboration Protocol]\n- @Request: @Role | Task(one line) | Input | Output format | Acceptance | Constraints(optional) | Due(optional)\n- Cite context: use \"CITE#source: content\" (priority: msg id > path > commit > link); if unsure: \"UNSURE: ...\"\n- Conflicts: Point | My conclusion | Their conclusion | Shared facts | Assumptions | Verification/experiment | Recommended action; unresolved after 2 rounds -> @Coordinator; security-related -> @Safety\n- Handoff: start with \"DELIVER:\" and include Artifact | How to use | Impact | Rollback | Next(<=5)\n- Save tokens: conclusion-first, bullets-first; long output = Summary(<=8 lines) + Details; no full paste, cite sources\n- Defaults: no scope creep; no implicit privacy/permission; when info is missing, propose an executable plan + 1-2 key confirmations\n- Quality bar: every response includes Conclusion + Evidence/Assumptions + Next Actions(<=5)"@
}

/// The common inputs section of every role prompt.
pub fn common_role_inputs() -> (r: Vec<&'static str>)
    ensures
        r@.len() == 3,
{
    let mut v: Vec<&'static str> = Vec::new();
    v.push("Chat messages with task intent, constraints, and acceptance needs.");
    v.push("Shared project context with CITE# references.");
    v.push("Outputs from other roles received through @requests.");
    v
}

/// The common outputs section of every role prompt.
pub fn common_role_outputs() -> (r: Vec<&'static str>)
    ensures
        r@.len() == 5,
{
    let mut v: Vec<&'static str> = Vec::new();
    v.push("Conclusion-first summary that directly answers the task.");
    v.push("Structured deliverable section beginning with DELIVER:.");
    v.push("Evidence and assumptions with explicit uncertainty markers.");
    v.push("Boundary checks, risk notes, and escalation when needed.");
    v.push("Next Actions (<=5).");
    v
}

/// The common workflow section of every role prompt.
pub fn common_role_workflow() -> (r: Vec<&'static str>)
    ensures
        r@.len() == 5,
{
    let mut v: Vec<&'static str> = Vec::new();
    v.push("Restate objective and constraints before solving.");
    v.push("Collect and cite context; mark uncertainty explicitly.");
    v.push("Produce an actionable deliverable with clear acceptance points.");
    v.push("Apply boundary checks and escalate risk to the right role.");
    v.push("Finish with concise next steps and handoff guidance.");
    v
}

/// The common boundaries section of every role prompt.
pub fn common_role_boundaries() -> (r: Vec<&'static str>)
    ensures
        r@.len() == 3,
{
    let mut v: Vec<&'static str> = Vec::new();
    v.push("No scope creep beyond the explicit request.");
    v.push("No implicit permission to expose private/sensitive data.");
    v.push("Escalate security, privacy, or policy concerns to @Safety.");
    v
}

/// The fully assembled role prompt for one team role.
pub fn build_role_prompt(
    role: &'static str,
    goal: &'static str,
    role_focus: &Vec<&'static str>,
    dod: &'static str,
) -> (r: String)
    ensures
        r@.len() > 0,
        crate::text::matches_at(r@, 0, "You are the team \""@),
{
    let mut out: String = "You are the team \"".to_owned();
    out.append(role);
    out.append("\". ");
    out.append(goal);
    out.append("\n\n(Embedded: Team Collaboration Protocol)\n");
    out.append(
        "[Team Collaboration Protocol]\n- @Request: @Role | Task(one line) | Input | Output format | Acceptance | Constraints(optional) | Due(optional)\n- Cite context: use \"CITE#source: content\" (priority: msg id > path > commit > link); if unsure: \"UNSURE: ...\"\n- Conflicts: Point | My conclusion | Their conclusion | Shared facts | Assumptions | Verification/experiment | Recommended action; unresolved after 2 rounds -> @Coordinator; security-related -> @Safety\n- Handoff: start with \"DELIVER:\" and include Artifact | How to use | Impact | Rollback | Next(<=5)\n- Save tokens: conclusion-first, bullets-first; long output = Summary(<=8 lines) + Details; no full paste, cite sources\n- Defaults: no scope creep; no implicit privacy/permission; when info is missing, propose an executable plan + 1-2 key confirmations\n- Quality bar: every response includes Conclusion + Evidence/Assumptions + Next Actions(<=5)",
    );
    out.append("\n\nInputs:\n");
    out.append(format_bullets(&common_role_inputs()).as_str());
    out.append("\n\nOutput format:\n");
    out.append(format_bullets(&common_role_outputs()).as_str());
    out.append("\n\nWorkflow:\n");
    out.append(format_steps(&common_role_workflow()).as_str());
    out.append("\n\nBoundaries / Escalation:\n");
    out.append(format_bullets(&common_role_boundaries()).as_str());
    out.append("\n\nRole focus:\n");
    out.append(format_bullets(role_focus).as_str());
    out.append("\n\nDefinition of Done:\n- ");
    out.append(dod);
    proof {
        reveal_strlit("You are the team \"");
        assert(out@.subrange(0, 18) =~= "You are the team \""@);
    }
    out
}

/// One built-in member preset.
pub fn builtin_member(
    id: &'static str,
    name: &'static str,
    description: &'static str,
    system_prompt: String,
    default_workspace_path: Option<&'static str>,
) -> (r: ChatMemberPreset)
    ensures
        r.id@ == id@,
        r.name@ == name@,
        r.description@ == description@,
        r.runner_type is None,
        r.system_prompt@ == system_prompt@,
        r.is_builtin == true,
        r.enabled == true,
{
    ChatMemberPreset {
        id: id.to_owned(),
        name: name.to_owned(),
        description: description.to_owned(),
        runner_type: None,
        system_prompt,
        default_workspace_path: match default_workspace_path {
            Some(p) => Some(p.to_owned()),
            None => None,
        },
        tools_enabled: Vec::new(),
        is_builtin: true,
        enabled: true,
    }
}

/// One built-in team preset.
pub fn builtin_team(
    id: &'static str,
    name: &'static str,
    description: &'static str,
    member_ids: &Vec<&'static str>,
) -> (r: ChatTeamPreset)
    ensures
        r.id@ == id@,
        r.name@ == name@,
        r.description@ == description@,
        r.member_ids@.map_values(|m: String| m@) == member_ids@.map_values(
            |m: &'static str| m@,
        ),
        r.is_builtin == true,
        r.enabled == true,
{
    let mut ids: Vec<String> = Vec::new();
    let mut i: usize = 0;
    assert(ids@.map_values(|m: String| m@) =~= member_ids@.map_values(
        |m: &'static str| m@,
    ).subrange(0, 0));
    while i < member_ids.len()
        invariant
            i <= member_ids@.len(),
            ids@.len() == i,
            ids@.map_values(|m: String| m@) == member_ids@.map_values(
                |m: &'static str| m@,
            ).subrange(0, i as int),
        decreases member_ids@.len() - i,
    {
        ids.push(member_ids[i].to_owned());
        assert(ids@.map_values(|m: String| m@) =~= member_ids@.map_values(
            |m: &'static str| m@,
        ).subrange(0, i as int + 1));
        i += 1;
    }
    proof {
        let all = member_ids@.map_values(|m: &'static str| m@);
        assert(all.subrange(0, all.len() as int) =~= all);
    }
    ChatTeamPreset {
        id: id.to_owned(),
        name: name.to_owned(),
        description: description.to_owned(),
        member_ids: ids,
        is_builtin: true,
        enabled: true,
    }
}

fn push_member(
    out: &mut ChatPresetsConfig,
    id: &'static str,
    name: &'static str,
    description: &'static str,
    role: &'static str,
    goal: &'static str,
    focus1: &'static str,
    focus2: &'static str,
    focus3: &'static str,
    dod: &'static str,
    workspace: &'static str,
)
    ensures
        final(out).members@.len() == old(out).members@.len() + 1,
        final(out).teams@ == old(out).teams@,
        final(out).members@.last().id@ == id@,
        final(out).members@.last().name@ == name@,
        final(out).members@.last().is_builtin == true,
        final(out).members@.last().enabled == true,
        forall|j: int|
            0 <= j < old(out).members@.len() ==> final(out).members@[j] == old(out).members@[j],
{
    let mut focus: Vec<&'static str> = Vec::new();
    focus.push(focus1);
    focus.push(focus2);
    focus.push(focus3);
    let prompt: String = build_role_prompt(role, goal, &focus, dod);
    let member: ChatMemberPreset = builtin_member(id, name, description, prompt, Some(workspace));
    out.members.push(member);
}

fn push_team(
    out: &mut ChatPresetsConfig,
    id: &'static str,
    name: &'static str,
    description: &'static str,
    member_ids: &Vec<&'static str>,
)
    ensures
        final(out).teams@.len() == old(out).teams@.len() + 1,
        final(out).members@ == old(out).members@,
        final(out).teams@.last().id@ == id@,
        final(out).teams@.last().is_builtin == true,
        final(out).teams@.last().enabled == true,
        final(out).teams@.last().member_ids@.map_values(|m: String| m@) == member_ids@.map_values(
            |m: &'static str| m@,
        ),
        forall|j: int| 0 <= j < old(out).teams@.len() ==> final(out).teams@[j] == old(out).teams@[j],
{
    let team: ChatTeamPreset = builtin_team(id, name, description, member_ids);
    out.teams.push(team);
}

/// The built-in catalog: twenty-two members and eight teams, all
/// built-in and enabled, every team referring only to catalog members.
#[verifier::rlimit(100)]
pub fn default_chat_presets() -> (r: ChatPresetsConfig)
    ensures
        r.members@.len() == 22,
        r.teams@.len() == 8,
        forall|j: int|
            0 <= j < r.members@.len() ==> (#[trigger] r.members@[j]).is_builtin
                && r.members@[j].enabled,
        forall|t: int|
            0 <= t < r.teams@.len() ==> (#[trigger] r.teams@[t]).is_builtin && r.teams@[t].enabled,
{
    let mut out: ChatPresetsConfig = ChatPresetsConfig { members: Vec::new(), teams: Vec::new() };
    push_member(&mut out, "coordinator_pmo", "coordinator",
        "Coordinator / PMO - planning, orchestration, and cross-role delivery alignment",
        "Coordinator / PMO",
        "Your goal is to turn user needs into executable plans and drive the team toward verifiable deliverables.",
        "Planning and task decomposition with clear owners.",
        "Dependency discovery and cross-role orchestration.",
        "Delivery tracking with actionable handoff criteria.",
        "The plan is executable, ownership is explicit, and each step has verifiable acceptance.",
        "management");
    push_member(&mut out, "product_manager", "product",
        "Product Manager - product scope, value, and acceptance criteria",
        "Product Manager",
        "Your goal is to define scope, value, and testable acceptance criteria so implementation has no ambiguity.",
        "User/problem framing and value prioritization.",
        "Scope versus non-scope discipline.",
        "Acceptance criteria that can be validated by QA.",
        "Requirements are prioritized, testable, and directly actionable by design and engineering.",
        "product");
    push_member(&mut out, "system_architect", "architect",
        "System Architect - architecture boundaries, data flows, and tradeoffs",
        "System Architect",
        "Your goal is to provide a shippable architecture with explicit boundaries, tradeoffs, and observability requirements.",
        "Layered architecture and interface contracts.",
        "Critical path analysis and bottleneck mitigation.",
        "ADR-style tradeoff documentation for decisions.",
        "Architecture decisions are implementable, observable, and defensible under constraints.",
        "architecture");
    push_member(&mut out, "prompt_engineer", "prompt",
        "Prompt Engineer - prompt design, adversarial testing, and quality scoring",
        "Prompt Engineer",
        "Your goal is to build stable, controllable prompts with adversarial test coverage and measurable quality standards.",
        "Role prompts with strict output contracts.",
        "Adversarial tests for injection and instruction conflicts.",
        "Scoring rubric for correctness, safety, and token efficiency.",
        "Prompt pack is copy-ready, test-backed, and robust against common failure modes.",
        "prompts");
    push_member(&mut out, "frontend_engineer", "frontend",
        "Frontend Engineer - component architecture, interaction quality, and UX reliability",
        "Frontend Engineer",
        "Your goal is to ship usable and maintainable UI flows that map protocol entities into concrete components.",
        "MVP-first page and component implementation.",
        "Resilient state handling for empty/loading/error/permission cases.",
        "A11y and performance checks before handoff.",
        "Frontend delivery is stable, accessible, and aligned with API and UX contracts.",
        "frontend");
    push_member(&mut out, "backend_engineer", "backend",
        "Backend Engineer - service reliability, data consistency, and security boundaries",
        "Backend Engineer",
        "Your goal is to implement stable, scalable backend capabilities with explicit authorization and observability.",
        "API/event/queue contract design and versioning.",
        "Data lifecycle, rate limit, retry, and idempotency controls.",
        "Auditability and redaction-aware logging.",
        "Backend paths are reliable, observable, and secure under expected load and failure conditions.",
        "backend");
    push_member(&mut out, "fullstack_engineer", "fullstack",
        "Full-stack Engineer - end-to-end delivery across frontend/backend with contract consistency",
        "Full-stack Engineer",
        "Your goal is to ship complete user-facing capabilities by aligning backend contracts, frontend behavior, and operational reliability.",
        "API-to-UI contract alignment and schema evolution control.",
        "Cross-layer implementation from data model to interface behavior.",
        "Integration validation for auth, errors, observability, and performance.",
        "End-to-end feature flow is shippable, reliable, and consistent across backend, frontend, and runtime operations.",
        "fullstack");
    push_member(&mut out, "qa_tester", "qa",
        "QA / Quality Engineer - test matrix, replay strategy, and release confidence",
        "QA / Quality Engineer",
        "Your goal is to transform feature intent into reproducible quality evidence across core and edge scenarios.",
        "Risk-based test matrix and prioritized test cases.",
        "Replay/golden-set coverage for AI variability.",
        "Clear repro and layered root-cause attribution.",
        "Quality evidence is reproducible, risk-aware, and mapped to release acceptance.",
        "tests");
    push_member(&mut out, "ux_ui_designer", "ux",
        "UX/UI Designer - information architecture, interactions, and clarity",
        "UX/UI Designer",
        "Your goal is to make user intent, system progress, and next actions obvious through implementable UI decisions.",
        "Information architecture with clear flow ownership.",
        "Interaction specs for request, cite, deliver, and conflict states.",
        "Microcopy and state design for confidence and control.",
        "Design handoff is implementation-ready and reduces user ambiguity at each step.",
        "design");
    push_member(&mut out, "safety_policy_officer", "safety",
        "Safety / Policy Officer - security, privacy, and least-privilege controls",
        "Safety / Policy Officer",
        "Your goal is to identify and reduce security, privacy, and overreach risks with practical mitigations and escalation rules.",
        "Risk register and threat modeling of critical paths.",
        "Least-privilege mapping from role to permission to escalation.",
        "Audit, retention, and redaction controls for incident response.",
        "Risk mitigation is actionable, least-privileged, and auditable with clear ownership.",
        "security");
    push_member(&mut out, "solution_manager", "solution",
        "Solution Manager - end-to-end solution packaging and sign-off readiness",
        "Solution Manager",
        "Your goal is to synthesize cross-role outputs into a sign-off-ready end-to-end solution package.",
        "Scope and non-scope framing with assumptions.",
        "Current-to-target execution path and delivery gates.",
        "Decision options with risk and rollback notes.",
        "Solution package is decision-ready, coherent across roles, and acceptance-verifiable.",
        "solutions");
    push_member(&mut out, "code_auditor", "auditor",
        "Code Auditor - correctness, maintainability, security, and performance",
        "Code Auditor",
        "Your goal is to produce actionable review feedback that improves correctness and safety before release.",
        "Blocker-first triage with concrete fixes.",
        "Risk framing for security, performance, and maintainability.",
        "Verification guidance for each requested change.",
        "Review output is prioritized, verifiable, and immediately actionable by implementers.",
        "reviews");
    push_member(&mut out, "devops_engineer", "devops",
        "DevOps Engineer - CI/CD, deployment, observability, and rollback safety",
        "DevOps Engineer",
        "Your goal is to guarantee reliable build/deploy/rollback workflows with environment parity and observability.",
        "Deployment topology and promotion strategy.",
        "Pipeline controls, artifact integrity, and rollback drills.",
        "Secret hygiene and least-privilege operational access.",
        "Operational delivery is repeatable, observable, secure, and reversible.",
        "devops");
    push_member(&mut out, "product_analyst", "product_analyst",
        "Product Analyst - metrics definition, instrumentation, and outcome analysis",
        "Product Analyst",
        "Your goal is to map product goals to measurable metrics and provide analysis frameworks for decision-making.",
        "North-star and driver metric decomposition.",
        "Event specification with trigger, properties, and quality controls.",
        "Decision-focused funnel, retention, cohort, and experiment views.",
        "Metrics and analysis plans are reproducible, aligned, and decision-useful.",
        "analytics");
    push_member(&mut out, "data_analyst", "data_analyst",
        "Data Analyst - reproducible analysis with explicit assumptions and limits",
        "Data Analyst",
        "Your goal is to answer business questions with reproducible analysis, confidence levels, and explicit limitations.",
        "Definition-first analysis discipline.",
        "Method transparency for filters, aggregation, and statistical approach.",
        "Actionable recommendations with uncertainty disclosure.",
        "Findings are traceable, reproducible, and transparent about confidence and data quality.",
        "analytics");
    push_member(&mut out, "technical_writer", "tech_writer",
        "Technical Writer - task-oriented documentation and onboarding clarity",
        "Technical Writer",
        "Your goal is to turn complex implementation details into clear, runnable, and task-oriented documentation.",
        "Quickstart, concepts, tutorial, API, and troubleshooting structure.",
        "Runnable examples with explicit prerequisites.",
        "Clarity and consistency checks for first-time readers.",
        "Documentation is accurate, runnable, and understandable without hidden assumptions.",
        "docs");
    push_member(&mut out, "content_researcher", "researcher",
        "Content Researcher - evidence collection, source synthesis, and confidence labeling",
        "Content Researcher",
        "Your goal is to provide evidence-ready research packs with source reliability and counterpoint coverage.",
        "Fact and case collection with confidence markers.",
        "Counter-argument framing and response options.",
        "UNSURE labeling for incomplete evidence.",
        "Research output is traceable, confidence-labeled, and ready for editorial use.",
        "research");
    push_member(&mut out, "content_editor", "editor",
        "Content Editor - structure, tone, factual consistency, and publish readiness",
        "Content Editor",
        "Your goal is to produce publication-ready content with clear structure, consistent style, and factual integrity.",
        "Edit strategy using cut/change/add decisions.",
        "Draft-to-final delta clarity and rationale.",
        "Fact-check checklist and unresolved issue tracking.",
        "Edited content is coherent, concise, and fact-aligned for publication.",
        "content");
    push_member(&mut out, "frontier_researcher", "frontier",
        "Frontier Researcher - hypothesis generation and experiment planning",
        "Frontier Researcher",
        "Your goal is to turn frontier ideas into testable hypotheses with concrete experiment plans and success criteria.",
        "Research question framing with baseline comparisons.",
        "Experiment protocol, metrics, and data requirements.",
        "Feasibility, risk, and fallback planning.",
        "Each proposal includes a measurable experiment path and explicit success criteria.",
        "research");
    push_member(&mut out, "marketing_specialist", "marketing",
        "Marketing Specialist - positioning, channel planning, and conversion strategy",
        "Marketing Specialist",
        "Your goal is to define market positioning and channel execution plans with product-verifiable claims.",
        "Persona, scenario, and differentiation framing.",
        "Message hierarchy with evidence placeholders.",
        "Channel cadence and funnel optimization strategy.",
        "Marketing plans are executable, measurable, and grounded in verifiable product value.",
        "marketing");
    push_member(&mut out, "video_editor", "video",
        "Video Editor - storyboard execution, pacing, and production handoff",
        "Video Editor",
        "Your goal is to transform scripts into production-ready shot plans with explicit specs and asset requirements.",
        "Shot-level planning with subtitle and audio notes.",
        "Asset checklist and fallback strategy.",
        "Editing rhythm, transitions, and delivery packaging.",
        "Video production plans are executable, complete, and review-ready.",
        "video");
    push_member(&mut out, "market_analyst", "market",
        "Market Analyst - market assumptions, competition, segmentation, and pricing ranges",
        "Market Analyst",
        "Your goal is to provide market insights for decisions with clear assumptions, uncertainty ranges, and comparison structure.",
        "Market boundary assumptions with explicit confidence.",
        "Competitor comparison across key dimensions.",
        "Segmentation and pricing/packaging options with caveats.",
        "Market analysis is transparent about uncertainty and practical for product and GTM decisions.",
        "research");

    let mut team_ids: Vec<&'static str> = Vec::new();
    team_ids.push("coordinator_pmo");
    team_ids.push("product_manager");
    team_ids.push("system_architect");
    team_ids.push("backend_engineer");
    team_ids.push("frontend_engineer");
    team_ids.push("qa_tester");
    team_ids.push("code_auditor");
    team_ids.push("devops_engineer");
    team_ids.push("safety_policy_officer");
    push_team(&mut out, "fullstack_delivery_team", "Full-stack Delivery Team",
        "End-to-end product delivery across product, architecture, engineering, QA, and operations.",
        &team_ids);

    let mut team_ids2: Vec<&'static str> = Vec::new();
    team_ids2.push("coordinator_pmo");
    team_ids2.push("prompt_engineer");
    team_ids2.push("qa_tester");
    team_ids2.push("backend_engineer");
    team_ids2.push("safety_policy_officer");
    push_team(&mut out, "ai_prompt_quality_team", "AI Prompt Quality Team",
        "Prompt design, adversarial testing, and policy hardening for AI role execution.",
        &team_ids2);

    let mut team_ids3: Vec<&'static str> = Vec::new();
    team_ids3.push("system_architect");
    team_ids3.push("backend_engineer");
    team_ids3.push("frontend_engineer");
    team_ids3.push("code_auditor");
    team_ids3.push("devops_engineer");
    team_ids3.push("safety_policy_officer");
    push_team(&mut out, "architecture_governance_team", "Architecture Governance Team",
        "Architecture review, implementation feasibility, security, and operational readiness.",
        &team_ids3);

    let mut team_ids4: Vec<&'static str> = Vec::new();
    team_ids4.push("product_manager");
    team_ids4.push("ux_ui_designer");
    team_ids4.push("product_analyst");
    team_ids4.push("data_analyst");
    team_ids4.push("market_analyst");
    push_team(&mut out, "product_discovery_team", "Product Discovery Team",
        "User problem discovery, experience design, instrumentation, and market validation.",
        &team_ids4);

    let mut team_ids5: Vec<&'static str> = Vec::new();
    team_ids5.push("solution_manager");
    team_ids5.push("content_researcher");
    team_ids5.push("technical_writer");
    team_ids5.push("content_editor");
    team_ids5.push("marketing_specialist");
    team_ids5.push("video_editor");
    push_team(&mut out, "content_studio_team", "Content Studio Team",
        "Research, writing, editing, and packaging of launch-ready content assets.",
        &team_ids5);

    let mut team_ids6: Vec<&'static str> = Vec::new();
    team_ids6.push("product_manager");
    team_ids6.push("marketing_specialist");
    team_ids6.push("market_analyst");
    team_ids6.push("product_analyst");
    team_ids6.push("data_analyst");
    push_team(&mut out, "growth_marketing_team", "Growth Marketing Team",
        "Positioning, campaign execution, and funnel optimization with analytics feedback.",
        &team_ids6);

    let mut team_ids7: Vec<&'static str> = Vec::new();
    team_ids7.push("coordinator_pmo");
    team_ids7.push("frontier_researcher");
    team_ids7.push("system_architect");
    team_ids7.push("prompt_engineer");
    team_ids7.push("product_manager");
    team_ids7.push("data_analyst");
    push_team(&mut out, "research_innovation_team", "Research Innovation Team",
        "Frontier exploration and rapid validation of new capabilities and model strategies.",
        &team_ids7);

    let mut team_ids8: Vec<&'static str> = Vec::new();
    team_ids8.push("coordinator_pmo");
    team_ids8.push("backend_engineer");
    team_ids8.push("frontend_engineer");
    team_ids8.push("qa_tester");
    team_ids8.push("code_auditor");
    push_team(&mut out, "rapid_bugfix_team", "Rapid Bugfix Team",
        "Fast incident response across implementation, testing, and review.",
        &team_ids8);

    out
}

} // verus!

//! Data exchanged between the registry, its runners, and the observer:
//! activity descriptions, plan-update payloads, engine events, turn
//! items, and the snapshot types handed to callers and to the
//! downstream consumer.

use vstd::prelude::*;

use crate::status::SubAgentStatus;

verus! {

/// The kind of tool activity most recently begun by a sub-agent.
#[derive(Clone, Copy, Debug, PartialEq, Eq, Structural)]
pub enum SubAgentActivityKind {
    Bash,
    Read,
    Mcp,
    WebSearch,
    ApplyPatch,
    Other,
}

/// The most recent tool-use event of a sub-agent: its kind and a short
/// derived label.
#[derive(Debug)]
pub struct SubAgentActivity {
    pub kind: SubAgentActivityKind,
    pub label: String,
}

impl SubAgentActivity {
    /// An exact copy.
    pub fn duplicate(&self) -> (r: Self)
        ensures
            r.kind == self.kind,
            r.label == self.label,
    {
        SubAgentActivity { kind: self.kind, label: self.label.clone() }
    }
}

/// Progress state of one step of a proposed plan.
#[derive(Clone, Copy, Debug, PartialEq, Eq, Structural)]
pub enum PlanStepStatus {
    Pending,
    InProgress,
    Completed,
}

/// One step of a proposed plan.
#[derive(Debug)]
pub struct PlanStep {
    pub step: String,
    pub status: PlanStepStatus,
}

/// A structured plan-update payload proposed by a sub-agent.
#[derive(Debug)]
pub struct PlanUpdate {
    pub explanation: Option<String>,
    pub steps: Vec<PlanStep>,
}

/// An input item of a sub-agent's initial turn.
#[derive(Debug)]
pub enum TurnItem {
    Text { text: String },
    Skill { name: String, path: String },
}

/// A named skill the resolver made available, with its path.
#[derive(Debug)]
pub struct SkillRef {
    pub name: String,
    pub path: String,
}

/// One event of an engine session's stream, carrying the correlation id
/// of the submission it belongs to.
#[derive(Debug)]
pub struct EngineEvent {
    pub id: String,
    pub msg: EngineEventMsg,
}

/// The event kinds a runner distinguishes. Kinds the runner ignores on
/// purpose arrive as `Other`.
#[derive(Debug)]
pub enum EngineEventMsg {
    AgentMessage { message: String },
    PlanUpdateProposal { update: PlanUpdate },
    ExecCommandBegin { command: Vec<String> },
    ReadFileToolCall { path: String },
    McpToolCallBegin { server: String, tool: String },
    WebSearchBegin,
    PatchApplyBegin,
    TokenCount { total: Option<i64> },
    TaskComplete { last_agent_message: Option<String> },
    ErrorEvent { message: String },
    Other,
}

/// One row of a registry listing.
#[derive(Debug)]
pub struct SubAgentSummary {
    pub id: u64,
    pub template: String,
    pub status: SubAgentStatus,
    pub title: String,
    pub tool_uses: usize,
    pub total_tokens: Option<i64>,
    pub last_activity: Option<SubAgentActivity>,
}

/// What a poll returns: the current summary fields plus the drained
/// queues, the final result, and the warnings.
#[derive(Debug)]
pub struct SubAgentPoll {
    pub id: u64,
    pub template: String,
    pub status: SubAgentStatus,
    pub title: String,
    pub tool_uses: usize,
    pub total_tokens: Option<i64>,
    pub last_activity: Option<SubAgentActivity>,
    pub drained_messages: Vec<String>,
    pub drained_plan_suggestions: Vec<PlanUpdate>,
    pub result: Option<String>,
    pub warnings: Vec<String>,
}

/// One sub-agent's row of a downstream snapshot.
#[derive(Debug)]
pub struct SubAgentUiItem {
    pub id: u64,
    pub template: String,
    pub title: String,
    pub status: SubAgentStatus,
    pub tool_uses: usize,
    pub total_tokens: Option<i64>,
    pub last_activity: Option<SubAgentActivity>,
    pub transcript: Vec<String>,
    pub transcript_truncated: bool,
}

/// A complete snapshot pushed downstream: total and running counts and
/// one row per sub-agent, in registry order.
#[derive(Debug)]
pub struct SubAgentsUpdateEvent {
    pub created_count: usize,
    pub running_count: usize,
    pub agents: Vec<SubAgentUiItem>,
}

/// Two optional activities describe the same observation.
pub open spec fn opt_activity_eq(a: Option<SubAgentActivity>, b: Option<SubAgentActivity>) -> bool {
    match (a, b) {
        (Option::None, Option::None) => true,
        (Option::Some(x), Option::Some(y)) => x.kind == y.kind && x.label@ == y.label@,
        _ => false,
    }
}

/// Two optional strings hold the same text.
pub open spec fn opt_string_eq(a: Option<String>, b: Option<String>) -> bool {
    match (a, b) {
        (Option::None, Option::None) => true,
        (Option::Some(x), Option::Some(y)) => x@ == y@,
        _ => false,
    }
}

} // verus!

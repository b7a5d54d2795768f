//! Management of concurrently running sub-agent tasks: a registry of
//! sub-agent state, per-sub-agent run-loop decisions, bounded transcript
//! buffers, and deduplicated downstream state snapshots.
//!
//! This crate holds the verified core: every state transition of a
//! sub-agent entry, the derivation of titles and activity labels, the
//! transcript ring, template handling, and the update-publishing
//! decision. The asynchronous shell (file reading, channels, the actual
//! engine session) lives outside and calls into these functions.

mod laws;
mod ops;
mod protocol;
mod publisher;
mod registry;
mod runner;
mod status;
mod templates;
mod text;
mod transcript;

pub use protocol::EngineEvent;
pub use protocol::EngineEventMsg;
pub use protocol::PlanStep;
pub use protocol::PlanStepStatus;
pub use protocol::PlanUpdate;
pub use protocol::SkillRef;
pub use protocol::SubAgentActivity;
pub use protocol::SubAgentActivityKind;
pub use protocol::SubAgentPoll;
pub use protocol::SubAgentSummary;
pub use protocol::SubAgentUiItem;
pub use protocol::SubAgentsUpdateEvent;
pub use protocol::TurnItem;
pub use laws::lemma_cancel_idempotent;
pub use laws::lemma_identical_projection_suppressed;
pub use laws::lemma_terminal_status_absorbing;
pub use laws::lemma_unspawned_id_absent;
pub use ops::CancelOutcome;
pub use ops::SpawnError;
pub use ops::SpawnOk;
pub use registry::append_transcript_tail;
pub use registry::SubAgentEntry;
pub use registry::SubAgentState;
pub use registry::SubAgentsManager;
pub use runner::build_turn;
pub use runner::find_skill;
pub use runner::EventOutcome;
pub use runner::TurnPlan;
pub use status::SubAgentStatus;
pub use templates::builtin_subagent_templates;
pub use templates::extract_fenced_blocks;
pub use templates::find_template;
pub use templates::merge_subagent_templates;
pub use templates::upsert_template;
pub use templates::SubAgentTemplate;
pub use transcript::clip_transcript_line;
pub use transcript::SUBAGENT_TRANSCRIPT_MAX_LINES;
pub use transcript::SUBAGENT_TRANSCRIPT_MAX_LINE_BYTES;
pub use text::format_exec_label;
pub use text::split_lines;
pub use text::str_eq;
pub use text::take_bytes_at_char_boundary;
pub use text::title_from_task;

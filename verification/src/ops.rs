//! Registry operations: listing, polling, cancellation, and the
//! runner-side mutations of a single entry. Terminal statuses are
//! absorbing: no operation moves an entry out of `Completed`,
//! `Canceled` or `Failed`.

use vstd::prelude::*;

use crate::protocol::opt_activity_eq;
use crate::protocol::opt_string_eq;
use crate::protocol::PlanUpdate;
use crate::protocol::SubAgentActivity;
use crate::protocol::SubAgentPoll;
use crate::protocol::SubAgentSummary;
use crate::protocol::SubAgentsUpdateEvent;
use crate::publisher::clone_string_vec;
use crate::publisher::should_emit;
use crate::publisher::update_matches_state;
use crate::registry::append_transcript_tail;
use crate::registry::entries_match_except;
use crate::registry::entry_index;
use crate::registry::has_entry;
use crate::registry::lemma_entry_index_some;
use crate::registry::SubAgentEntry;
use crate::registry::SubAgentState;
use crate::registry::SubAgentsManager;
use crate::status::SubAgentStatus;
use crate::templates::template_index;
use crate::templates::template_matches;
use crate::templates::SubAgentTemplate;
use crate::text::seq_views;
use crate::text::title_spec;
use crate::transcript::ring_append_message;

verus! {

/// A counter bumped by one, saturating at the maximum.
pub open spec fn sat_inc(n: usize) -> usize {
    if n == usize::MAX {
        n
    } else {
        (n + 1) as usize
    }
}

/// A tool-activity event applied to a state: the counter bumped, the
/// activity overwritten.
pub open spec fn state_bump(s: SubAgentState, activity: SubAgentActivity) -> SubAgentState {
    SubAgentState { tool_uses: sat_inc(s.tool_uses), last_activity: Some(activity), ..s }
}

/// A token-usage event applied to a state: last write wins.
pub open spec fn state_set_tokens(s: SubAgentState, total: Option<i64>) -> SubAgentState {
    SubAgentState { total_tokens: total, ..s }
}

/// A status transition applied to a state: only a `Running` entry
/// moves; terminal statuses are absorbing.
pub open spec fn state_set_status(s: SubAgentState, status: SubAgentStatus) -> SubAgentState {
    if s.status == SubAgentStatus::Running {
        SubAgentState { status, ..s }
    } else {
        s
    }
}

/// Completion applied to a state: a `Running` entry becomes
/// `Completed` and takes its final message; a terminal entry is left
/// alone.
pub open spec fn state_complete(s: SubAgentState, result: Option<String>) -> SubAgentState {
    if s.status == SubAgentStatus::Running {
        SubAgentState { status: SubAgentStatus::Completed, result, ..s }
    } else {
        s
    }
}

/// Cancellation applied to a state: the cancellation signal is set
/// either way, and a `Running` entry becomes `Canceled`.
pub open spec fn state_cancel(s: SubAgentState) -> SubAgentState {
    if s.status == SubAgentStatus::Running {
        SubAgentState { status: SubAgentStatus::Canceled, cancel_requested: true, ..s }
    } else {
        SubAgentState { cancel_requested: true, ..s }
    }
}

/// The submission channel recorded as attached.
pub open spec fn state_attach(s: SubAgentState) -> SubAgentState {
    SubAgentState { submission_attached: true, ..s }
}

/// The post state equals the pre state with the given strings
/// appended to its warnings, and `Running` moved to `Failed`.
pub open spec fn state_failed(pre: SubAgentState, post: SubAgentState, errors: Seq<String>) -> bool {
    &&& post.status == if pre.status == SubAgentStatus::Running {
        SubAgentStatus::Failed
    } else {
        pre.status
    }
    &&& post.warnings@ == pre.warnings@ + errors
    &&& post.template == pre.template
    &&& post.title == pre.title
    &&& post.tool_uses == pre.tool_uses
    &&& post.total_tokens == pre.total_tokens
    &&& post.last_activity == pre.last_activity
    &&& post.transcript_tail == pre.transcript_tail
    &&& post.transcript_truncated == pre.transcript_truncated
    &&& post.drained_messages == pre.drained_messages
    &&& post.drained_plan_suggestions == pre.drained_plan_suggestions
    &&& post.result == pre.result
    &&& post.cancel_requested == pre.cancel_requested
    &&& post.submission_attached == pre.submission_attached
}

/// The post state equals the pre state with the given strings
/// appended to its warnings.
pub open spec fn state_warned(pre: SubAgentState, post: SubAgentState, added: Seq<String>) -> bool {
    &&& post.warnings@ == pre.warnings@ + added
    &&& post.status == pre.status
    &&& post.template == pre.template
    &&& post.title == pre.title
    &&& post.tool_uses == pre.tool_uses
    &&& post.total_tokens == pre.total_tokens
    &&& post.last_activity == pre.last_activity
    &&& post.transcript_tail == pre.transcript_tail
    &&& post.transcript_truncated == pre.transcript_truncated
    &&& post.drained_messages == pre.drained_messages
    &&& post.drained_plan_suggestions == pre.drained_plan_suggestions
    &&& post.result == pre.result
    &&& post.cancel_requested == pre.cancel_requested
    &&& post.submission_attached == pre.submission_attached
}

/// The post state equals the pre state with the plan-update payload
/// appended to its drained queue.
pub open spec fn plan_appended(pre: SubAgentState, post: SubAgentState, u: PlanUpdate) -> bool {
    &&& post.drained_plan_suggestions@ == pre.drained_plan_suggestions@.push(u)
    &&& post.status == pre.status
    &&& post.template == pre.template
    &&& post.title == pre.title
    &&& post.tool_uses == pre.tool_uses
    &&& post.total_tokens == pre.total_tokens
    &&& post.last_activity == pre.last_activity
    &&& post.transcript_tail == pre.transcript_tail
    &&& post.transcript_truncated == pre.transcript_truncated
    &&& post.drained_messages == pre.drained_messages
    &&& post.result == pre.result
    &&& post.warnings == pre.warnings
    &&& post.cancel_requested == pre.cancel_requested
    &&& post.submission_attached == pre.submission_attached
}

/// The post state equals the pre state with the message rendered into
/// the transcript ring and pushed onto the drained-messages queue.
pub open spec fn message_appended(pre: SubAgentState, post: SubAgentState, m: String) -> bool {
    &&& (seq_views(post.transcript_tail@), post.transcript_truncated) == ring_append_message(
        seq_views(pre.transcript_tail@),
        pre.transcript_truncated,
        m@,
    )
    &&& post.drained_messages@ == pre.drained_messages@.push(m)
    &&& post.template == pre.template
    &&& post.title == pre.title
    &&& post.status == pre.status
    &&& post.tool_uses == pre.tool_uses
    &&& post.total_tokens == pre.total_tokens
    &&& post.last_activity == pre.last_activity
    &&& post.drained_plan_suggestions == pre.drained_plan_suggestions
    &&& post.result == pre.result
    &&& post.warnings == pre.warnings
    &&& post.cancel_requested == pre.cancel_requested
    &&& post.submission_attached == pre.submission_attached
}

/// The summary row describes the entry.
pub open spec fn summary_matches_entry(u: SubAgentSummary, e: SubAgentEntry) -> bool {
    &&& u.id == e.id
    &&& u.template@ == e.state.template@
    &&& u.status == e.state.status
    &&& u.title@ == e.state.title@
    &&& u.tool_uses == e.state.tool_uses
    &&& u.total_tokens == e.state.total_tokens
    &&& opt_activity_eq(u.last_activity, e.state.last_activity)
}

/// Why a spawn was refused.
#[derive(Clone, Copy, Debug, PartialEq, Eq, Structural)]
pub enum SpawnError {
    /// No template of the requested name exists.
    UnknownTemplate,
}

/// What a successful spawn hands back: the fresh id, a copy of the
/// resolved template for the runner, whether the skills capability
/// should be enabled for the child, and the snapshot to push
/// downstream, if any.
pub struct SpawnOk {
    pub id: u64,
    pub template: SubAgentTemplate,
    pub enable_skills: bool,
    pub update: Option<SubAgentsUpdateEvent>,
}

/// The outcome of a cancellation request.
pub struct CancelOutcome {
    /// Whether the id named an entry; cancellation of a known id
    /// reports `true` no matter how often it is repeated.
    pub existed: bool,
    /// Whether an interrupt should be forwarded to the engine: set
    /// when a submission channel was already attached.
    pub forward_interrupt: bool,
    /// The snapshot to push downstream, when the visible projection
    /// changed.
    pub update: Option<SubAgentsUpdateEvent>,
}

impl SubAgentsManager {
    /// A consistent snapshot of all entries, in insertion order.
    pub fn list(&self) -> (r: Vec<SubAgentSummary>)
        ensures
            r@.len() == self.entries@.len(),
            forall|j: int|
                0 <= j < r@.len() ==> summary_matches_entry(r@[j], self.entries@[j]),
    {
        let n = self.entries.len();
        let mut out: Vec<SubAgentSummary> = Vec::new();
        let mut i: usize = 0;
        while i < n
            invariant
                n == self.entries@.len(),
                0 <= i <= n,
                out@.len() == i as int,
                forall|j: int| 0 <= j < i ==> summary_matches_entry(out@[j], self.entries@[j]),
            decreases n - i,
        {
            let e = &self.entries[i];
            out.push(
                SubAgentSummary {
                    id: e.id,
                    template: e.state.template.clone(),
                    status: e.state.status,
                    title: e.state.title.clone(),
                    tool_uses: e.state.tool_uses,
                    total_tokens: e.state.total_tokens,
                    last_activity: match &e.state.last_activity {
                        Option::Some(a) => Some(a.duplicate()),
                        Option::None => None,
                    },
                },
            );
            i += 1;
        }
        out
    }

    /// The current snapshot of one entry, plus its drained queues: the
    /// plan suggestions always leave the entry, the messages only when
    /// `include_messages` is set. Unknown ids yield `None` and leave
    /// the registry untouched.
    pub fn poll(&mut self, id: u64, include_messages: bool) -> (r: Option<SubAgentPoll>)
        requires
            old(self).wf(),
        ensures
            final(self).wf(),
            Self::admin_unchanged(*old(self), *final(self)),
            final(self).last_update == old(self).last_update,
            r is Some <==> has_entry(old(self).entries@, id),
            r is None ==> final(self).entries == old(self).entries,
            r matches Some(p) ==> ({
                let k = entry_index(old(self).entries@, id).unwrap();
                let pre = old(self).entries@[k].state;
                let post = final(self).entries@[k].state;
                &&& entries_match_except(old(self).entries@, final(self).entries@, k)
                &&& post.drained_plan_suggestions@.len() == 0
                &&& (include_messages ==> post.drained_messages@.len() == 0)
                &&& (!include_messages ==> post.drained_messages == pre.drained_messages)
                &&& post.status == pre.status
                &&& post.template == pre.template
                &&& post.title == pre.title
                &&& post.tool_uses == pre.tool_uses
                &&& post.total_tokens == pre.total_tokens
                &&& post.last_activity == pre.last_activity
                &&& post.transcript_tail == pre.transcript_tail
                &&& post.transcript_truncated == pre.transcript_truncated
                &&& post.result == pre.result
                &&& post.warnings == pre.warnings
                &&& post.cancel_requested == pre.cancel_requested
                &&& post.submission_attached == pre.submission_attached
                &&& p.id == id
                &&& p.template@ == pre.template@
                &&& p.status == pre.status
                &&& p.title@ == pre.title@
                &&& p.tool_uses == pre.tool_uses
                &&& p.total_tokens == pre.total_tokens
                &&& opt_activity_eq(p.last_activity, pre.last_activity)
                &&& (include_messages ==> p.drained_messages == pre.drained_messages)
                &&& (!include_messages ==> p.drained_messages@.len() == 0)
                &&& p.drained_plan_suggestions == pre.drained_plan_suggestions
                &&& opt_string_eq(p.result, pre.result)
                &&& p.warnings@ == pre.warnings@
            }),
    {
        let idx = self.find_index(id);
        let k = match idx {
            Option::None => {
                return None;
            },
            Option::Some(k) => k,
        };
        proof {
            lemma_entry_index_some(self.entries@, id);
        }
        let e = &mut self.entries[k];
        let drained_messages: Vec<String> = if include_messages {
            let mut taken: Vec<String> = Vec::new();
            core::mem::swap(&mut e.state.drained_messages, &mut taken);
            taken
        } else {
            Vec::new()
        };
        let mut plans: Vec<PlanUpdate> = Vec::new();
        core::mem::swap(&mut e.state.drained_plan_suggestions, &mut plans);
        let out = SubAgentPoll {
            id,
            template: e.state.template.clone(),
            status: e.state.status,
            title: e.state.title.clone(),
            tool_uses: e.state.tool_uses,
            total_tokens: e.state.total_tokens,
            last_activity: match &e.state.last_activity {
                Option::Some(a) => Some(a.duplicate()),
                Option::None => None,
            },
            drained_messages,
            drained_plan_suggestions: plans,
            result: match &e.state.result {
                Option::Some(s) => Some(s.clone()),
                Option::None => None,
            },
            warnings: clone_string_vec(&e.state.warnings),
        };
        Some(out)
    }

    /// Cancels an entry: sets the cancellation signal, moves a
    /// `Running` entry to `Canceled` (terminal statuses stay), asks
    /// for an interrupt to be forwarded when a submission channel is
    /// attached, and publishes. Reports whether the id was known;
    /// repeated cancellation reports `true` again.
    pub fn cancel(&mut self, id: u64) -> (r: CancelOutcome)
        requires
            old(self).wf(),
        ensures
            final(self).wf(),
            Self::admin_unchanged(*old(self), *final(self)),
            r.existed == has_entry(old(self).entries@, id),
            !r.existed ==> final(self).entries == old(self).entries && final(self).last_update
                == old(self).last_update && r.update is None && !r.forward_interrupt,
            r.existed ==> ({
                let k = entry_index(old(self).entries@, id).unwrap();
                &&& entries_match_except(old(self).entries@, final(self).entries@, k)
                &&& final(self).entries@[k].state == state_cancel(old(self).entries@[k].state)
                &&& r.forward_interrupt == old(self).entries@[k].state.submission_attached
            }),
            r.update is Some <==> (r.existed && old(self).sender_attached && !(old(
                self,
            ).last_update matches Some(p) && update_matches_state(p, final(self).entries@))),
            r.update matches Some(u) ==> update_matches_state(u, final(self).entries@),
            r.update is None && r.existed ==> final(self).last_update == old(self).last_update,
            r.existed ==> !should_emit(*final(self)),
    {
        let idx = self.find_index(id);
        let k = match idx {
            Option::None => {
                return CancelOutcome { existed: false, forward_interrupt: false, update: None };
            },
            Option::Some(k) => k,
        };
        proof {
            lemma_entry_index_some(self.entries@, id);
        }
        let e = &mut self.entries[k];
        let forward_interrupt = e.state.submission_attached;
        if matches!(e.state.status, SubAgentStatus::Running) {
            e.state.status = SubAgentStatus::Canceled;
        }
        e.state.cancel_requested = true;
        let update = self.emit_update_if_changed();
        CancelOutcome { existed: true, forward_interrupt, update }
    }

    /// Appends a produced message to the entry's transcript ring and
    /// drained-messages queue, then publishes.
    pub fn append_message(&mut self, id: u64, msg: String) -> (r: Option<SubAgentsUpdateEvent>)
        requires
            old(self).wf(),
        ensures
            final(self).wf(),
            Self::admin_unchanged(*old(self), *final(self)),
            match entry_index(old(self).entries@, id) {
                Option::None => final(self).entries == old(self).entries,
                Option::Some(k) => entries_match_except(
                    old(self).entries@,
                    final(self).entries@,
                    k,
                ) && message_appended(
                    old(self).entries@[k].state,
                    final(self).entries@[k].state,
                    msg,
                ),
            },
            r is Some <==> (old(self).sender_attached && !(old(self).last_update matches Some(p)
                && update_matches_state(p, final(self).entries@))),
            r matches Some(u) ==> update_matches_state(u, final(self).entries@),
            r is None ==> final(self).last_update == old(self).last_update,
            !should_emit(*final(self)),
    {
        let idx = self.find_index(id);
        if let Option::Some(k) = idx {
            proof {
                lemma_entry_index_some(self.entries@, id);
            }
            let e = &mut self.entries[k];
            append_transcript_tail(&mut e.state, msg.as_str());
            e.state.drained_messages.push(msg);
        }
        self.emit_update_if_changed()
    }

    /// Appends a plan-update proposal to the entry's drained queue.
    pub fn append_plan_suggestion(&mut self, id: u64, update: PlanUpdate)
        requires
            old(self).wf(),
        ensures
            final(self).wf(),
            Self::admin_unchanged(*old(self), *final(self)),
            final(self).last_update == old(self).last_update,
            match entry_index(old(self).entries@, id) {
                Option::None => final(self).entries == old(self).entries,
                Option::Some(k) => entries_match_except(
                    old(self).entries@,
                    final(self).entries@,
                    k,
                ) && plan_appended(
                    old(self).entries@[k].state,
                    final(self).entries@[k].state,
                    update,
                ),
            },
    {
        let idx = self.find_index(id);
        if let Option::Some(k) = idx {
            proof {
                lemma_entry_index_some(self.entries@, id);
            }
            let e = &mut self.entries[k];
            e.state.drained_plan_suggestions.push(update);
        }
    }

    /// Counts a tool-activity event: bumps the saturating counter,
    /// overwrites the last activity, and publishes.
    pub fn bump_tool_use(&mut self, id: u64, activity: SubAgentActivity) -> (r: Option<
        SubAgentsUpdateEvent,
    >)
        requires
            old(self).wf(),
        ensures
            final(self).wf(),
            Self::admin_unchanged(*old(self), *final(self)),
            match entry_index(old(self).entries@, id) {
                Option::None => final(self).entries == old(self).entries,
                Option::Some(k) => entries_match_except(
                    old(self).entries@,
                    final(self).entries@,
                    k,
                ) && final(self).entries@[k].state == state_bump(
                    old(self).entries@[k].state,
                    activity,
                ),
            },
            r is Some <==> (old(self).sender_attached && !(old(self).last_update matches Some(p)
                && update_matches_state(p, final(self).entries@))),
            r matches Some(u) ==> update_matches_state(u, final(self).entries@),
            r is None ==> final(self).last_update == old(self).last_update,
            !should_emit(*final(self)),
    {
        let idx = self.find_index(id);
        if let Option::Some(k) = idx {
            proof {
                lemma_entry_index_some(self.entries@, id);
            }
            let e = &mut self.entries[k];
            let tu = e.state.tool_uses;
            e.state.tool_uses = if tu == usize::MAX {
                usize::MAX
            } else {
                tu + 1
            };
            e.state.last_activity = Some(activity);
        }
        self.emit_update_if_changed()
    }

    /// Overwrites the entry's token total with the event's blended
    /// total (which may be absent), then publishes.
    pub fn set_total_tokens(&mut self, id: u64, total: Option<i64>) -> (r: Option<
        SubAgentsUpdateEvent,
    >)
        requires
            old(self).wf(),
        ensures
            final(self).wf(),
            Self::admin_unchanged(*old(self), *final(self)),
            match entry_index(old(self).entries@, id) {
                Option::None => final(self).entries == old(self).entries,
                Option::Some(k) => entries_match_except(
                    old(self).entries@,
                    final(self).entries@,
                    k,
                ) && final(self).entries@[k].state == state_set_tokens(
                    old(self).entries@[k].state,
                    total,
                ),
            },
            r is Some <==> (old(self).sender_attached && !(old(self).last_update matches Some(p)
                && update_matches_state(p, final(self).entries@))),
            r matches Some(u) ==> update_matches_state(u, final(self).entries@),
            r is None ==> final(self).last_update == old(self).last_update,
            !should_emit(*final(self)),
    {
        let idx = self.find_index(id);
        if let Option::Some(k) = idx {
            proof {
                lemma_entry_index_some(self.entries@, id);
            }
            let e = &mut self.entries[k];
            e.state.total_tokens = total;
        }
        self.emit_update_if_changed()
    }

    /// Appends diagnostics to the entry's warnings.
    pub fn append_warnings(&mut self, id: u64, warnings: Vec<String>)
        requires
            old(self).wf(),
        ensures
            final(self).wf(),
            Self::admin_unchanged(*old(self), *final(self)),
            final(self).last_update == old(self).last_update,
            match entry_index(old(self).entries@, id) {
                Option::None => final(self).entries == old(self).entries,
                Option::Some(k) => entries_match_except(
                    old(self).entries@,
                    final(self).entries@,
                    k,
                ) && state_warned(
                    old(self).entries@[k].state,
                    final(self).entries@[k].state,
                    warnings@,
                ),
            },
    {
        let idx = self.find_index(id);
        if let Option::Some(k) = idx {
            proof {
                lemma_entry_index_some(self.entries@, id);
            }
            let e = &mut self.entries[k];
            let n = warnings.len();
            let mut i: usize = 0;
            while i < n
                invariant
                    n == warnings@.len(),
                    0 <= i <= n,
                    e.state.warnings@ =~= old(self).entries@[k as int].state.warnings@
                        + warnings@.subrange(0, i as int),
                    e.state.status == old(self).entries@[k as int].state.status,
                    e.state.template == old(self).entries@[k as int].state.template,
                    e.state.title == old(self).entries@[k as int].state.title,
                    e.state.tool_uses == old(self).entries@[k as int].state.tool_uses,
                    e.state.total_tokens == old(self).entries@[k as int].state.total_tokens,
                    e.state.last_activity == old(self).entries@[k as int].state.last_activity,
                    e.state.transcript_tail == old(self).entries@[k as int].state.transcript_tail,
                    e.state.transcript_truncated == old(
                        self,
                    ).entries@[k as int].state.transcript_truncated,
                    e.state.drained_messages == old(
                        self,
                    ).entries@[k as int].state.drained_messages,
                    e.state.drained_plan_suggestions == old(
                        self,
                    ).entries@[k as int].state.drained_plan_suggestions,
                    e.state.result == old(self).entries@[k as int].state.result,
                    e.state.cancel_requested == old(
                        self,
                    ).entries@[k as int].state.cancel_requested,
                    e.state.submission_attached == old(
                        self,
                    ).entries@[k as int].state.submission_attached,
                    e.id == old(self).entries@[k as int].id,
                    0 <= k < old(self).entries@.len(),
                decreases n - i,
            {
                e.state.warnings.push(warnings[i].clone());
                i += 1;
            }
            proof {
                assert(warnings@.subrange(0, n as int) =~= warnings@);
            }
        }
    }

    /// Marks a `Running` entry `Completed` and records its final
    /// message.
    pub fn complete(&mut self, id: u64, result: Option<String>)
        requires
            old(self).wf(),
        ensures
            final(self).wf(),
            Self::admin_unchanged(*old(self), *final(self)),
            final(self).last_update == old(self).last_update,
            match entry_index(old(self).entries@, id) {
                Option::None => final(self).entries == old(self).entries,
                Option::Some(k) => entries_match_except(
                    old(self).entries@,
                    final(self).entries@,
                    k,
                ) && final(self).entries@[k].state == state_complete(
                    old(self).entries@[k].state,
                    result,
                ),
            },
    {
        let idx = self.find_index(id);
        if let Option::Some(k) = idx {
            proof {
                lemma_entry_index_some(self.entries@, id);
            }
            let e = &mut self.entries[k];
            if matches!(e.state.status, SubAgentStatus::Running) {
                e.state.status = SubAgentStatus::Completed;
                e.state.result = result;
            }
        }
    }

    /// Records a failure: appends the diagnostics to the warnings and
    /// marks a `Running` entry `Failed`.
    pub fn fail(&mut self, id: u64, errors: Vec<String>)
        requires
            old(self).wf(),
        ensures
            final(self).wf(),
            Self::admin_unchanged(*old(self), *final(self)),
            final(self).last_update == old(self).last_update,
            match entry_index(old(self).entries@, id) {
                Option::None => final(self).entries == old(self).entries,
                Option::Some(k) => entries_match_except(
                    old(self).entries@,
                    final(self).entries@,
                    k,
                ) && state_failed(
                    old(self).entries@[k].state,
                    final(self).entries@[k].state,
                    errors@,
                ),
            },
    {
        let was_running = match self.find_index(id) {
            Option::None => false,
            Option::Some(k) => {
                proof {
                    lemma_entry_index_some(self.entries@, id);
                }
                matches!(self.entries[k].state.status, SubAgentStatus::Running)
            },
        };
        self.append_warnings(id, errors);
        proof {
            lemma_entry_index_some(old(self).entries@, id);
            assert(forall|j: int|
                0 <= j < old(self).entries@.len() ==> old(self).entries@[j].id
                    == self.entries@[j].id);
            crate::registry::lemma_entry_index_same_ids(old(self).entries@, self.entries@, id);
        }
        if was_running {
            self.set_status(id, SubAgentStatus::Failed);
        }
    }

    /// Moves a `Running` entry to the given status; terminal statuses
    /// are absorbing.
    pub fn set_status(&mut self, id: u64, status: SubAgentStatus)
        requires
            old(self).wf(),
        ensures
            final(self).wf(),
            Self::admin_unchanged(*old(self), *final(self)),
            final(self).last_update == old(self).last_update,
            match entry_index(old(self).entries@, id) {
                Option::None => final(self).entries == old(self).entries,
                Option::Some(k) => entries_match_except(
                    old(self).entries@,
                    final(self).entries@,
                    k,
                ) && final(self).entries@[k].state == state_set_status(
                    old(self).entries@[k].state,
                    status,
                ),
            },
    {
        let idx = self.find_index(id);
        if let Option::Some(k) = idx {
            proof {
                lemma_entry_index_some(self.entries@, id);
            }
            let e = &mut self.entries[k];
            if matches!(e.state.status, SubAgentStatus::Running) {
                e.state.status = status;
            }
        }
    }

    /// Spawns a sub-agent from a template: resolves the template by
    /// name (failing synchronously, before any entry is created, when
    /// it is unknown), derives the title from the task's first
    /// non-blank line with the template name as fallback, inserts a
    /// fresh `Running` entry under a fresh id, and publishes. The
    /// caller schedules the runner with the returned handoff; spawning
    /// never waits for the sub-agent.
    pub fn spawn(&mut self, templates: &Vec<SubAgentTemplate>, template_name: &str, task: &str) -> (r:
        Result<SpawnOk, SpawnError>)
        requires
            old(self).wf(),
            old(self).next_id < u64::MAX,
        ensures
            final(self).wf(),
            r is Err <==> template_index(templates@, template_name@) is None,
            r is Err ==> final(self).entries == old(self).entries,
            r is Err ==> final(self).next_id == old(self).next_id,
            r is Err ==> final(self).sender_attached == old(self).sender_attached,
            r is Err ==> final(self).last_update == old(self).last_update,
            r matches Ok(ok) ==> ({
                let ti = template_index(templates@, template_name@).unwrap();
                let tpl = templates@[ti];
                let k = old(self).entries@.len() as int;
                let st = final(self).entries@[k].state;
                &&& ok.id == old(self).next_id
                &&& final(self).next_id == old(self).next_id + 1
                &&& final(self).sender_attached == old(self).sender_attached
                &&& final(self).entries@.len() == k + 1
                &&& (forall|j: int| 0 <= j < k ==> final(self).entries@[j] == old(self).entries@[j])
                &&& final(self).entries@[k].id == ok.id
                &&& st.template@ == tpl.name@
                &&& (match title_spec(task@) {
                    Option::Some(t) => st.title@ == t,
                    Option::None => st.title@ == tpl.name@,
                })
                &&& st.status == SubAgentStatus::Running
                &&& st.tool_uses == 0
                &&& st.total_tokens is None
                &&& st.last_activity is None
                &&& st.transcript_tail@.len() == 0
                &&& !st.transcript_truncated
                &&& st.drained_messages@.len() == 0
                &&& st.drained_plan_suggestions@.len() == 0
                &&& st.result is None
                &&& st.warnings@.len() == 0
                &&& !st.cancel_requested
                &&& !st.submission_attached
                &&& template_matches(ok.template, tpl)
                &&& ok.enable_skills == (tpl.skills@.len() > 0)
                &&& (ok.update matches Some(u) ==> update_matches_state(u, final(self).entries@))
                &&& (ok.update is Some <==> (old(self).sender_attached && !(old(
                    self,
                ).last_update matches Some(p) && update_matches_state(p, final(self).entries@))))
                &&& (ok.update is None ==> final(self).last_update == old(self).last_update)
            }),
            r is Ok ==> !should_emit(*final(self)),
    {
        let ti = match crate::templates::find_template(templates, template_name) {
            Option::None => {
                return Err(SpawnError::UnknownTemplate);
            },
            Option::Some(t) => t,
        };
        proof {
            crate::templates::lemma_template_index_some(templates@, template_name@);
        }
        let template = templates[ti].duplicate();
        let title = match crate::text::title_from_task(task) {
            Option::Some(t) => t,
            Option::None => template.name.clone(),
        };
        let id = self.next_id;
        self.next_id = id + 1;
        let state = SubAgentState::new(template.name.clone(), title);
        let enable_skills = template.skills.len() > 0;
        self.entries.push(SubAgentEntry { id, state });
        proof {
            let k = old(self).entries@.len() as int;
            assert(forall|j: int| 0 <= j < k ==> self.entries@[j] == old(self).entries@[j]);
            assert(self.entries@[k].id == id);
            assert(self.wf()) by {
                assert(forall|i: int, j: int|
                    0 <= i < j < self.entries@.len() ==> self.entries@[i].id
                        < self.entries@[j].id);
            }
        }
        let update = self.emit_update_if_changed();
        proof {
            let ti2 = template_index(templates@, template_name@).unwrap();
            let tpl = templates@[ti2];
            assert(seq_views(template.skills@).len() == seq_views(tpl.skills@).len());
            assert(enable_skills == (tpl.skills@.len() > 0));
        }
        Ok(SpawnOk { id, template, enable_skills, update })
    }

    /// Records that the runner has stored the session's submission
    /// channel, so later cancellations forward an interrupt.
    pub fn attach_submission(&mut self, id: u64)
        requires
            old(self).wf(),
        ensures
            final(self).wf(),
            Self::admin_unchanged(*old(self), *final(self)),
            final(self).last_update == old(self).last_update,
            match entry_index(old(self).entries@, id) {
                Option::None => final(self).entries == old(self).entries,
                Option::Some(k) => entries_match_except(
                    old(self).entries@,
                    final(self).entries@,
                    k,
                ) && final(self).entries@[k].state == state_attach(old(self).entries@[k].state),
            },
    {
        let idx = self.find_index(id);
        if let Option::Some(k) = idx {
            proof {
                lemma_entry_index_some(self.entries@, id);
            }
            let e = &mut self.entries[k];
            e.state.submission_attached = true;
        }
    }
}

} // verus!

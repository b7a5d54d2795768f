//! The per-sub-agent runner's decisions: building the initial turn
//! from the template, the resolved skills and the task text; recording
//! engine failures; and translating each engine event into the one
//! registry mutation it calls for. The caller owns the session itself
//! and the loop that awaits events; every decision it acts on is made
//! here.

use vstd::prelude::*;

use crate::ops::message_appended;
use crate::ops::plan_appended;
use crate::ops::sat_inc;
use crate::ops::state_complete;
use crate::ops::state_set_status;
use crate::ops::state_set_tokens;
use crate::protocol::EngineEvent;
use crate::protocol::EngineEventMsg;
use crate::protocol::SkillRef;
use crate::protocol::SubAgentActivity;
use crate::protocol::SubAgentActivityKind;
use crate::protocol::SubAgentsUpdateEvent;
use crate::protocol::TurnItem;
use crate::publisher::should_emit;
use crate::publisher::update_matches_state;
use crate::registry::entries_match_except;
use crate::registry::entry_index;
use crate::registry::SubAgentState;
use crate::registry::SubAgentsManager;
use crate::status::SubAgentStatus;
use crate::templates::SubAgentTemplate;
use crate::text::exec_label_spec;
use crate::text::format_exec_label;
use crate::text::seq_views;
use crate::text::str_eq;
use crate::text::str_trim;
use crate::text::trim_spec;

verus! {

/// A turn item reduced to its text content.
pub enum TurnItemView {
    TextItem(Seq<char>),
    SkillItem(Seq<char>, Seq<char>),
}

/// The content of one turn item.
pub open spec fn item_view(i: TurnItem) -> TurnItemView {
    match i {
        TurnItem::Text { text } => TurnItemView::TextItem(text@),
        TurnItem::Skill { name, path } => TurnItemView::SkillItem(name@, path@),
    }
}

/// The contents of a sequence of turn items.
pub open spec fn items_views(v: Seq<TurnItem>) -> Seq<TurnItemView> {
    Seq::new(v.len(), |i: int| item_view(v[i]))
}

/// Index of the first resolved skill with the given name.
pub open spec fn skill_index(skills: Seq<SkillRef>, name: Seq<char>) -> Option<int>
    decreases skills.len(),
{
    if skills.len() == 0 {
        None
    } else if skills[0].name@ == name {
        Some(0int)
    } else {
        match skill_index(skills.drop_first(), name) {
            Option::None => None,
            Option::Some(k) => Some(k + 1),
        }
    }
}

/// A found index is in range and carries the name sought.
pub proof fn lemma_skill_index_some(skills: Seq<SkillRef>, name: Seq<char>)
    ensures
        skill_index(skills, name) matches Some(k) ==> 0 <= k < skills.len() && skills[k].name@
            == name,
    decreases skills.len(),
{
    if skills.len() > 0 && skills[0].name@ != name {
        lemma_skill_index_some(skills.drop_first(), name);
    }
}

/// The first position with the name is the one found.
pub proof fn lemma_skill_index_at(skills: Seq<SkillRef>, name: Seq<char>, k: int)
    requires
        0 <= k < skills.len(),
        skills[k].name@ == name,
        forall|j: int| 0 <= j < k ==> skills[j].name@ != name,
    ensures
        skill_index(skills, name) == Some(k),
    decreases skills.len(),
{
    if skills[0].name@ != name {
        let t = skills.drop_first();
        assert(forall|j: int| 0 <= j < t.len() ==> t[j] == skills[j + 1]);
        lemma_skill_index_at(t, name, k - 1);
    }
}

/// A name held by no skill is not found.
pub proof fn lemma_skill_index_none(skills: Seq<SkillRef>, name: Seq<char>)
    requires
        forall|j: int| 0 <= j < skills.len() ==> skills[j].name@ != name,
    ensures
        skill_index(skills, name) is None,
    decreases skills.len(),
{
    if skills.len() > 0 {
        let t = skills.drop_first();
        assert(forall|j: int| 0 <= j < t.len() ==> t[j] == skills[j + 1]);
        lemma_skill_index_none(t, name);
    }
}

/// Index of the first resolved skill with the given name, executably.
pub fn find_skill(skills: &Vec<SkillRef>, name: &str) -> (r: Option<usize>)
    ensures
        r is Some <==> skill_index(skills@, name@) is Some,
        r matches Some(k) ==> skill_index(skills@, name@) == Some(k as int),
{
    let n = skills.len();
    let mut i: usize = 0;
    while i < n
        invariant
            n == skills@.len(),
            0 <= i <= n,
            forall|j: int| 0 <= j < i ==> skills@[j].name@ != name@,
        decreases n - i,
    {
        if str_eq(skills[i].name.as_str(), name) {
            proof {
                lemma_skill_index_at(skills@, name@, i as int);
            }
            return Some(i);
        }
        i += 1;
    }
    proof {
        lemma_skill_index_none(skills@, name@);
    }
    None
}

/// The warning recorded for a skill name the resolver does not know.
pub open spec fn unknown_skill_warning(name: Seq<char>) -> Seq<char> {
    "unknown skill preset: "@ + name
}

/// The skill names folded against the resolved set: each known name
/// yields a skill item, each unknown one a non-fatal warning.
pub open spec fn skills_fold(names: Seq<Seq<char>>, skills: Seq<SkillRef>) -> (
    Seq<TurnItemView>,
    Seq<Seq<char>>,
)
    decreases names.len(),
{
    if names.len() == 0 {
        (seq![], seq![])
    } else {
        let rest = skills_fold(names.drop_first(), skills);
        match skill_index(skills, names.first()) {
            Option::Some(k) => (
                seq![TurnItemView::SkillItem(skills[k].name@, skills[k].path@)] + rest.0,
                rest.1,
            ),
            Option::None => (rest.0, seq![unknown_skill_warning(names.first())] + rest.1),
        }
    }
}

/// The initial turn a template and task yield: the instruction text
/// when its trimmed form is non-blank, then one item per resolved
/// skill (unresolved names becoming warnings instead), and the task
/// text with a closing line feed last.
pub open spec fn turn_spec(
    instr: Seq<char>,
    names: Seq<Seq<char>>,
    skills: Seq<SkillRef>,
    task: Seq<char>,
) -> (Seq<TurnItemView>, Seq<Seq<char>>) {
    let sk = skills_fold(names, skills);
    let lead: Seq<TurnItemView> = if trim_spec(instr).len() > 0 {
        seq![TurnItemView::TextItem(instr)]
    } else {
        seq![]
    };
    (lead + sk.0 + seq![TurnItemView::TextItem(task.push('\n'))], sk.1)
}

/// The initial turn to submit, the warnings gathered while building
/// it, and the model to run it with.
pub struct TurnPlan {
    pub items: Vec<TurnItem>,
    pub warnings: Vec<String>,
    pub model: String,
}

/// Builds the sub-agent's initial turn: the template's instructions,
/// the resolved skills (unknown names become warnings and execution
/// continues), and the task text last; the model is the template's
/// override or the caller's default.
pub fn build_turn(
    template: &SubAgentTemplate,
    task: &str,
    available_skills: &Vec<SkillRef>,
    default_model: &str,
) -> (r: TurnPlan)
    ensures
        items_views(r.items@) == turn_spec(
            template.instructions@,
            seq_views(template.skills@),
            available_skills@,
            task@,
        ).0,
        seq_views(r.warnings@) == turn_spec(
            template.instructions@,
            seq_views(template.skills@),
            available_skills@,
            task@,
        ).1,
        match template.model {
            Option::Some(m) => r.model@ == m@,
            Option::None => r.model@ == default_model@,
        },
{
    let ghost names = seq_views(template.skills@);
    let ghost fold_full = skills_fold(names, available_skills@);
    let mut items: Vec<TurnItem> = Vec::new();
    let mut warnings: Vec<String> = Vec::new();
    let instr_trimmed = str_trim(template.instructions.as_str());
    let ghost lead: Seq<TurnItemView> = if trim_spec(template.instructions@).len() > 0 {
        seq![TurnItemView::TextItem(template.instructions@)]
    } else {
        seq![]
    };
    if !instr_trimmed.is_empty() {
        items.push(TurnItem::Text { text: template.instructions.clone() });
    }
    proof {
        assert(items_views(items@) =~= lead);
        assert(names.subrange(0, names.len() as int) =~= names);
    }
    let n = template.skills.len();
    let mut i: usize = 0;
    while i < n
        invariant
            n == template.skills@.len(),
            names == seq_views(template.skills@),
            fold_full == skills_fold(names, available_skills@),
            0 <= i <= n,
            lead + fold_full.0 =~= items_views(items@) + skills_fold(
                names.subrange(i as int, n as int),
                available_skills@,
            ).0,
            fold_full.1 =~= seq_views(warnings@) + skills_fold(
                names.subrange(i as int, n as int),
                available_skills@,
            ).1,
        decreases n - i,
    {
        proof {
            let rest = names.subrange(i as int, n as int);
            assert(seq_views(template.skills@)[i as int] == template.skills@[i as int]@);
            assert(rest.first() == names[i as int]);
            assert(rest.drop_first() =~= names.subrange(i as int + 1, n as int));
        }
        let name = &template.skills[i];
        match find_skill(available_skills, name.as_str()) {
            Option::Some(k) => {
                proof {
                    lemma_skill_index_some(available_skills@, name@);
                }
                let ghost prev = items@;
                items.push(
                    TurnItem::Skill {
                        name: available_skills[k].name.clone(),
                        path: available_skills[k].path.clone(),
                    },
                );
                proof {
                    assert(items_views(items@) =~= items_views(prev) + seq![
                        TurnItemView::SkillItem(
                            available_skills@[k as int].name@,
                            available_skills@[k as int].path@,
                        ),
                    ]);
                }
            },
            Option::None => {
                let mut w = String::from_str("unknown skill preset: ");
                w.append(name.as_str());
                let ghost prev = warnings@;
                warnings.push(w);
                proof {
                    assert(seq_views(warnings@) =~= seq_views(prev) + seq![unknown_skill_warning(
                        names[i as int],
                    )]);
                }
            },
        }
        i += 1;
    }
    proof {
        assert(names.subrange(n as int, n as int) =~= Seq::<Seq<char>>::empty());
        assert(seq_views(warnings@) =~= fold_full.1);
    }
    let mut task_text = task.to_owned();
    task_text.append("\n");
    proof {
        reveal_strlit("\n");
        assert(task_text@ =~= task@.push('\n'));
    }
    let ghost prev = items@;
    items.push(TurnItem::Text { text: task_text });
    proof {
        assert(items_views(items@) =~= items_views(prev) + seq![TurnItemView::TextItem(
            task@.push('\n'),
        )]);
        assert(items_views(items@) =~= lead + fold_full.0 + seq![TurnItemView::TextItem(
            task@.push('\n'),
        )]);
    }
    let model = match &template.model {
        Option::Some(m) => m.clone(),
        Option::None => default_model.to_owned(),
    };
    TurnPlan { items, warnings, model }
}

/// The post state is the pre state with the saturating tool counter
/// bumped and the last activity overwritten with the given kind and
/// label.
pub open spec fn bumped_with(
    pre: SubAgentState,
    post: SubAgentState,
    kind: SubAgentActivityKind,
    label: Seq<char>,
) -> bool {
    &&& post.tool_uses == sat_inc(pre.tool_uses)
    &&& (post.last_activity matches Some(a) && a.kind == kind && a.label@ == label)
    &&& post.template == pre.template
    &&& post.title == pre.title
    &&& post.status == pre.status
    &&& post.total_tokens == pre.total_tokens
    &&& post.transcript_tail == pre.transcript_tail
    &&& post.transcript_truncated == pre.transcript_truncated
    &&& post.drained_messages == pre.drained_messages
    &&& post.drained_plan_suggestions == pre.drained_plan_suggestions
    &&& post.result == pre.result
    &&& post.warnings == pre.warnings
    &&& post.cancel_requested == pre.cancel_requested
    &&& post.submission_attached == pre.submission_attached
}

/// The post state is the pre state with one more warning, of the
/// given text, and `Running` moved to `Failed`.
pub open spec fn state_failed_text(pre: SubAgentState, post: SubAgentState, text: Seq<char>) -> bool {
    &&& post.status == if pre.status == SubAgentStatus::Running {
        SubAgentStatus::Failed
    } else {
        pre.status
    }
    &&& post.warnings@.len() == pre.warnings@.len() + 1
    &&& (forall|j: int| 0 <= j < pre.warnings@.len() ==> post.warnings@[j] == pre.warnings@[j])
    &&& post.warnings@.last()@ == text
    &&& post.template == pre.template
    &&& post.title == pre.title
    &&& post.tool_uses == pre.tool_uses
    &&& post.total_tokens == pre.total_tokens
    &&& post.last_activity == pre.last_activity
    &&& post.transcript_tail == pre.transcript_tail
    &&& post.transcript_truncated == pre.transcript_truncated
    &&& post.drained_messages == pre.drained_messages
    &&& post.drained_plan_suggestions == pre.drained_plan_suggestions
    &&& post.result == pre.result
    &&& post.cancel_requested == pre.cancel_requested
    &&& post.submission_attached == pre.submission_attached
}

/// Whether handling this event publishes a snapshot attempt.
pub open spec fn event_publishes(cancel_pending: bool, ev: EngineEvent, submit_id: Seq<char>) -> bool {
    cancel_pending || match ev.msg {
        EngineEventMsg::AgentMessage { .. } => true,
        EngineEventMsg::ExecCommandBegin { .. } => true,
        EngineEventMsg::ReadFileToolCall { .. } => true,
        EngineEventMsg::McpToolCallBegin { .. } => true,
        EngineEventMsg::WebSearchBegin => true,
        EngineEventMsg::PatchApplyBegin => true,
        EngineEventMsg::TokenCount { .. } => true,
        EngineEventMsg::TaskComplete { .. } => ev.id@ == submit_id,
        EngineEventMsg::ErrorEvent { .. } => ev.id@ == submit_id,
        _ => false,
    }
}

/// What one step of the runner's event loop decided.
pub struct EventOutcome {
    /// The runner is finished: the entry reached a terminal state or
    /// cancellation was honored.
    pub done: bool,
    /// The snapshot to push downstream, when one is owed.
    pub update: Option<SubAgentsUpdateEvent>,
}

impl SubAgentsManager {
    /// One step of a runner's event loop. When cancellation is
    /// pending, the entry is canceled and the event's content is
    /// discarded — a terminal event racing a cancellation never
    /// overrides it. Otherwise the event is dispatched by kind:
    /// produced messages feed the transcript and message queue, plan
    /// proposals the plan queue, tool-activity beginnings the counter
    /// and label, token counts the total; a completion or error
    /// carrying the submission's correlation id ends the runner, and
    /// anything else — unknown kinds or foreign correlation ids — is
    /// ignored on purpose.
    pub fn handle_event(
        &mut self,
        id: u64,
        submit_id: &str,
        cancel_pending: bool,
        event: EngineEvent,
    ) -> (r: EventOutcome)
        requires
            old(self).wf(),
        ensures
            final(self).wf(),
            Self::admin_unchanged(*old(self), *final(self)),
            r.done == (cancel_pending || (match event.msg {
                EngineEventMsg::TaskComplete { .. } => event.id@ == submit_id@,
                EngineEventMsg::ErrorEvent { .. } => event.id@ == submit_id@,
                _ => false,
            })),
            cancel_pending ==> (match entry_index(old(self).entries@, id) {
                Option::None => final(self).entries == old(self).entries,
                Option::Some(k) => entries_match_except(old(self).entries@, final(self).entries@, k)
                    && final(self).entries@[k].state == state_set_status(
                    old(self).entries@[k].state,
                    SubAgentStatus::Canceled,
                ),
            }),
            !cancel_pending ==> (match event.msg {
                EngineEventMsg::AgentMessage { message } => (match entry_index(
                    old(self).entries@,
                    id,
                ) {
                    Option::None => final(self).entries == old(self).entries,
                    Option::Some(k) => entries_match_except(
                        old(self).entries@,
                        final(self).entries@,
                        k,
                    ) && message_appended(
                        old(self).entries@[k].state,
                        final(self).entries@[k].state,
                        message,
                    ),
                }),
                EngineEventMsg::PlanUpdateProposal { update } => (match entry_index(
                    old(self).entries@,
                    id,
                ) {
                    Option::None => final(self).entries == old(self).entries,
                    Option::Some(k) => entries_match_except(
                        old(self).entries@,
                        final(self).entries@,
                        k,
                    ) && plan_appended(
                        old(self).entries@[k].state,
                        final(self).entries@[k].state,
                        update,
                    ),
                }),
                EngineEventMsg::ExecCommandBegin { command } => (match entry_index(
                    old(self).entries@,
                    id,
                ) {
                    Option::None => final(self).entries == old(self).entries,
                    Option::Some(k) => entries_match_except(
                        old(self).entries@,
                        final(self).entries@,
                        k,
                    ) && bumped_with(
                        old(self).entries@[k].state,
                        final(self).entries@[k].state,
                        SubAgentActivityKind::Bash,
                        exec_label_spec(seq_views(command@)),
                    ),
                }),
                EngineEventMsg::ReadFileToolCall { path } => (match entry_index(
                    old(self).entries@,
                    id,
                ) {
                    Option::None => final(self).entries == old(self).entries,
                    Option::Some(k) => entries_match_except(
                        old(self).entries@,
                        final(self).entries@,
                        k,
                    ) && bumped_with(
                        old(self).entries@[k].state,
                        final(self).entries@[k].state,
                        SubAgentActivityKind::Read,
                        path@,
                    ),
                }),
                EngineEventMsg::McpToolCallBegin { server, tool } => (match entry_index(
                    old(self).entries@,
                    id,
                ) {
                    Option::None => final(self).entries == old(self).entries,
                    Option::Some(k) => entries_match_except(
                        old(self).entries@,
                        final(self).entries@,
                        k,
                    ) && bumped_with(
                        old(self).entries@[k].state,
                        final(self).entries@[k].state,
                        SubAgentActivityKind::Mcp,
                        server@ + "::"@ + tool@,
                    ),
                }),
                EngineEventMsg::WebSearchBegin => (match entry_index(old(self).entries@, id) {
                    Option::None => final(self).entries == old(self).entries,
                    Option::Some(k) => entries_match_except(
                        old(self).entries@,
                        final(self).entries@,
                        k,
                    ) && bumped_with(
                        old(self).entries@[k].state,
                        final(self).entries@[k].state,
                        SubAgentActivityKind::WebSearch,
                        "web_search"@,
                    ),
                }),
                EngineEventMsg::PatchApplyBegin => (match entry_index(old(self).entries@, id) {
                    Option::None => final(self).entries == old(self).entries,
                    Option::Some(k) => entries_match_except(
                        old(self).entries@,
                        final(self).entries@,
                        k,
                    ) && bumped_with(
                        old(self).entries@[k].state,
                        final(self).entries@[k].state,
                        SubAgentActivityKind::ApplyPatch,
                        "apply_patch"@,
                    ),
                }),
                EngineEventMsg::TokenCount { total } => (match entry_index(
                    old(self).entries@,
                    id,
                ) {
                    Option::None => final(self).entries == old(self).entries,
                    Option::Some(k) => entries_match_except(
                        old(self).entries@,
                        final(self).entries@,
                        k,
                    ) && final(self).entries@[k].state == state_set_tokens(
                        old(self).entries@[k].state,
                        total,
                    ),
                }),
                EngineEventMsg::TaskComplete { last_agent_message } => if event.id@ == submit_id@ {
                    match entry_index(old(self).entries@, id) {
                        Option::None => final(self).entries == old(self).entries,
                        Option::Some(k) => entries_match_except(
                            old(self).entries@,
                            final(self).entries@,
                            k,
                        ) && final(self).entries@[k].state == state_complete(
                            old(self).entries@[k].state,
                            last_agent_message,
                        ),
                    }
                } else {
                    final(self).entries == old(self).entries
                },
                EngineEventMsg::ErrorEvent { message } => if event.id@ == submit_id@ {
                    match entry_index(old(self).entries@, id) {
                        Option::None => final(self).entries == old(self).entries,
                        Option::Some(k) => entries_match_except(
                            old(self).entries@,
                            final(self).entries@,
                            k,
                        ) && state_failed_text(
                            old(self).entries@[k].state,
                            final(self).entries@[k].state,
                            message@,
                        ),
                    }
                } else {
                    final(self).entries == old(self).entries
                },
                EngineEventMsg::Other => final(self).entries == old(self).entries,
            }),
            event_publishes(cancel_pending, event, submit_id@) ==> ({
                &&& (r.update is Some <==> (old(self).sender_attached && !(old(
                    self,
                ).last_update matches Some(p) && update_matches_state(p, final(self).entries@))))
                &&& (r.update matches Some(u) ==> update_matches_state(u, final(self).entries@))
                &&& (r.update is None ==> final(self).last_update == old(self).last_update)
                &&& !should_emit(*final(self))
            }),
            !event_publishes(cancel_pending, event, submit_id@) ==> r.update is None,
            !event_publishes(cancel_pending, event, submit_id@) ==> final(self).last_update == old(
                self,
            ).last_update,
    {
        if cancel_pending {
            self.set_status(id, SubAgentStatus::Canceled);
            let update = self.emit_update_if_changed();
            return EventOutcome { done: true, update };
        }
        let EngineEvent { id: event_id, msg } = event;
        match msg {
            EngineEventMsg::AgentMessage { message } => {
                let update = self.append_message(id, message);
                EventOutcome { done: false, update }
            },
            EngineEventMsg::PlanUpdateProposal { update } => {
                self.append_plan_suggestion(id, update);
                EventOutcome { done: false, update: None }
            },
            EngineEventMsg::ExecCommandBegin { command } => {
                let label = format_exec_label(&command);
                let update = self.bump_tool_use(
                    id,
                    SubAgentActivity { kind: SubAgentActivityKind::Bash, label },
                );
                EventOutcome { done: false, update }
            },
            EngineEventMsg::ReadFileToolCall { path } => {
                let update = self.bump_tool_use(
                    id,
                    SubAgentActivity { kind: SubAgentActivityKind::Read, label: path },
                );
                EventOutcome { done: false, update }
            },
            EngineEventMsg::McpToolCallBegin { server, tool } => {
                let mut label = server;
                label.append("::");
                label.append(tool.as_str());
                let update = self.bump_tool_use(
                    id,
                    SubAgentActivity { kind: SubAgentActivityKind::Mcp, label },
                );
                EventOutcome { done: false, update }
            },
            EngineEventMsg::WebSearchBegin => {
                let update = self.bump_tool_use(
                    id,
                    SubAgentActivity {
                        kind: SubAgentActivityKind::WebSearch,
                        label: String::from_str("web_search"),
                    },
                );
                EventOutcome { done: false, update }
            },
            EngineEventMsg::PatchApplyBegin => {
                let update = self.bump_tool_use(
                    id,
                    SubAgentActivity {
                        kind: SubAgentActivityKind::ApplyPatch,
                        label: String::from_str("apply_patch"),
                    },
                );
                EventOutcome { done: false, update }
            },
            EngineEventMsg::TokenCount { total } => {
                let update = self.set_total_tokens(id, total);
                EventOutcome { done: false, update }
            },
            EngineEventMsg::TaskComplete { last_agent_message } => {
                if str_eq(event_id.as_str(), submit_id) {
                    self.complete(id, last_agent_message);
                    let update = self.emit_update_if_changed();
                    EventOutcome { done: true, update }
                } else {
                    EventOutcome { done: false, update: None }
                }
            },
            EngineEventMsg::ErrorEvent { message } => {
                if str_eq(event_id.as_str(), submit_id) {
                    let mut errors: Vec<String> = Vec::new();
                    errors.push(message);
                    self.fail(id, errors);
                    let update = self.emit_update_if_changed();
                    EventOutcome { done: true, update }
                } else {
                    EventOutcome { done: false, update: None }
                }
            },
            EngineEventMsg::Other => EventOutcome { done: false, update: None },
        }
    }

    /// Records that the engine session could not be started: the
    /// entry fails with a diagnostic and the runner ends.
    pub fn runner_start_failed(&mut self, id: u64, err: String)
        requires
            old(self).wf(),
        ensures
            final(self).wf(),
            Self::admin_unchanged(*old(self), *final(self)),
            final(self).last_update == old(self).last_update,
            match entry_index(old(self).entries@, id) {
                Option::None => final(self).entries == old(self).entries,
                Option::Some(k) => entries_match_except(old(self).entries@, final(self).entries@, k)
                    && state_failed_text(
                    old(self).entries@[k].state,
                    final(self).entries@[k].state,
                    "failed to spawn sub-agent: "@ + err@,
                ),
            },
    {
        let mut m = String::from_str("failed to spawn sub-agent: ");
        m.append(err.as_str());
        let mut errors: Vec<String> = Vec::new();
        errors.push(m);
        self.fail(id, errors);
    }

    /// Records that submitting the initial turn failed: the entry
    /// fails with a diagnostic and the runner ends.
    pub fn runner_submit_failed(&mut self, id: u64, err: String)
        requires
            old(self).wf(),
        ensures
            final(self).wf(),
            Self::admin_unchanged(*old(self), *final(self)),
            final(self).last_update == old(self).last_update,
            match entry_index(old(self).entries@, id) {
                Option::None => final(self).entries == old(self).entries,
                Option::Some(k) => entries_match_except(old(self).entries@, final(self).entries@, k)
                    && state_failed_text(
                    old(self).entries@[k].state,
                    final(self).entries@[k].state,
                    "failed to submit sub-agent task: "@ + err@,
                ),
            },
    {
        let mut m = String::from_str("failed to submit sub-agent task: ");
        m.append(err.as_str());
        let mut errors: Vec<String> = Vec::new();
        errors.push(m);
        self.fail(id, errors);
    }

    /// Records that the event stream broke: the entry fails with a
    /// diagnostic and the runner ends.
    pub fn runner_stream_failed(&mut self, id: u64, err: String)
        requires
            old(self).wf(),
        ensures
            final(self).wf(),
            Self::admin_unchanged(*old(self), *final(self)),
            final(self).last_update == old(self).last_update,
            match entry_index(old(self).entries@, id) {
                Option::None => final(self).entries == old(self).entries,
                Option::Some(k) => entries_match_except(old(self).entries@, final(self).entries@, k)
                    && state_failed_text(
                    old(self).entries@[k].state,
                    final(self).entries@[k].state,
                    "sub-agent event stream failed: "@ + err@,
                ),
            },
    {
        let mut m = String::from_str("sub-agent event stream failed: ");
        m.append(err.as_str());
        let mut errors: Vec<String> = Vec::new();
        errors.push(m);
        self.fail(id, errors);
    }

    /// Records that cancellation was observed before the first
    /// submission: a warning is kept and the runner ends. The entry
    /// was already moved to `Canceled` by the cancellation itself, so
    /// its terminal status stands.
    pub fn runner_canceled_before_start(&mut self, id: u64)
        requires
            old(self).wf(),
        ensures
            final(self).wf(),
            Self::admin_unchanged(*old(self), *final(self)),
            final(self).last_update == old(self).last_update,
            match entry_index(old(self).entries@, id) {
                Option::None => final(self).entries == old(self).entries,
                Option::Some(k) => entries_match_except(old(self).entries@, final(self).entries@, k)
                    && state_failed_text(
                    old(self).entries@[k].state,
                    final(self).entries@[k].state,
                    "sub-agent was canceled before start"@,
                ),
            },
    {
        let m = String::from_str("sub-agent was canceled before start");
        let mut errors: Vec<String> = Vec::new();
        errors.push(m);
        self.fail(id, errors);
    }
}

} // verus!

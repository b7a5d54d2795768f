//! The registry: the single store of all known sub-agents and their
//! mutable state. Entries are kept in insertion order under unique,
//! never-reused ids; a sub-agent's status moves from `Running` to one
//! terminal status and then never again.

use vstd::prelude::*;

use crate::protocol::PlanUpdate;
use crate::protocol::SubAgentActivity;
use crate::status::SubAgentStatus;
use crate::text::seq_views;
use crate::text::split_lines;
use crate::text::str_trim_end;
use crate::text::line_split;
use crate::transcript::clip_transcript_line;
use crate::transcript::lemma_ring_append_lines_bound;
use crate::transcript::lemma_ring_append_lines_push;
use crate::transcript::ring_append_lines;
use crate::transcript::ring_append_message;
use crate::transcript::SUBAGENT_TRANSCRIPT_MAX_LINES;

verus! {

/// The mutable state of one sub-agent entry.
#[derive(Debug)]
pub struct SubAgentState {
    /// Name of the template the sub-agent was started from.
    pub template: String,
    /// Short label derived once at spawn time.
    pub title: String,
    pub status: SubAgentStatus,
    /// Count of tool-activity events, saturating at the maximum.
    pub tool_uses: usize,
    /// Last reported blended token total, if any.
    pub total_tokens: Option<i64>,
    /// The most recent tool-use event, overwritten rather than kept.
    pub last_activity: Option<SubAgentActivity>,
    /// Bounded rolling buffer of recent output lines.
    pub transcript_tail: Vec<String>,
    /// Set once the buffer has ever evicted a line; never cleared.
    pub transcript_truncated: bool,
    /// Produced messages not yet delivered to a poller.
    pub drained_messages: Vec<String>,
    /// Plan-update payloads not yet delivered to a poller.
    pub drained_plan_suggestions: Vec<PlanUpdate>,
    /// Final message, set when the sub-agent completes.
    pub result: Option<String>,
    /// Append-only diagnostics.
    pub warnings: Vec<String>,
    /// Whether cancellation has been requested for this entry.
    pub cancel_requested: bool,
    /// Whether the runner has recorded the session's submission
    /// channel, so interrupts can be forwarded.
    pub submission_attached: bool,
}

impl SubAgentState {
    /// The per-entry invariant: the transcript never exceeds its line
    /// budget.
    pub open spec fn wf(self) -> bool {
        self.transcript_tail@.len() <= SUBAGENT_TRANSCRIPT_MAX_LINES as int
    }

    /// A fresh entry state: `Running`, with empty counters, queues and
    /// flags.
    pub fn new(template: String, title: String) -> (r: Self)
        ensures
            r.template == template,
            r.title == title,
            r.status == SubAgentStatus::Running,
            r.tool_uses == 0,
            r.total_tokens is None,
            r.last_activity is None,
            r.transcript_tail@.len() == 0,
            !r.transcript_truncated,
            r.drained_messages@.len() == 0,
            r.drained_plan_suggestions@.len() == 0,
            r.result is None,
            r.warnings@.len() == 0,
            !r.cancel_requested,
            !r.submission_attached,
            r.wf(),
    {
        SubAgentState {
            template,
            title,
            status: SubAgentStatus::Running,
            tool_uses: 0,
            total_tokens: None,
            last_activity: None,
            transcript_tail: Vec::new(),
            transcript_truncated: false,
            drained_messages: Vec::new(),
            drained_plan_suggestions: Vec::new(),
            result: None,
            warnings: Vec::new(),
            cancel_requested: false,
            submission_attached: false,
        }
    }
}

/// One registry slot: a unique id and the state it owns.
#[derive(Debug)]
pub struct SubAgentEntry {
    pub id: u64,
    pub state: SubAgentState,
}

/// Index of the entry with the given id, searching from the front.
pub open spec fn entry_index(s: Seq<SubAgentEntry>, id: u64) -> Option<int>
    decreases s.len(),
{
    if s.len() == 0 {
        None
    } else if s[0].id == id {
        Some(0int)
    } else {
        match entry_index(s.drop_first(), id) {
            Option::None => None,
            Option::Some(k) => Some(k + 1),
        }
    }
}

/// Whether some entry carries the given id.
pub open spec fn has_entry(s: Seq<SubAgentEntry>, id: u64) -> bool {
    entry_index(s, id) is Some
}

/// A found index is in range and carries the id sought.
pub proof fn lemma_entry_index_some(s: Seq<SubAgentEntry>, id: u64)
    ensures
        entry_index(s, id) matches Some(k) ==> 0 <= k < s.len() && s[k].id == id,
    decreases s.len(),
{
    if s.len() > 0 && s[0].id != id {
        lemma_entry_index_some(s.drop_first(), id);
    }
}

/// The first position holding the id is the one found.
pub proof fn lemma_entry_index_at(s: Seq<SubAgentEntry>, id: u64, k: int)
    requires
        0 <= k < s.len(),
        s[k].id == id,
        forall|j: int| 0 <= j < k ==> s[j].id != id,
    ensures
        entry_index(s, id) == Some(k),
    decreases s.len(),
{
    if s[0].id != id {
        let t = s.drop_first();
        assert(forall|j: int| 0 <= j < t.len() ==> t[j] == s[j + 1]);
        lemma_entry_index_at(t, id, k - 1);
    }
}

/// An id held by no entry is not found.
pub proof fn lemma_entry_index_none(s: Seq<SubAgentEntry>, id: u64)
    requires
        forall|j: int| 0 <= j < s.len() ==> s[j].id != id,
    ensures
        entry_index(s, id) is None,
    decreases s.len(),
{
    if s.len() > 0 {
        let t = s.drop_first();
        assert(forall|j: int| 0 <= j < t.len() ==> t[j] == s[j + 1]);
        lemma_entry_index_none(t, id);
    }
}

/// Lookup depends only on the ids: two sequences carrying the same
/// ids in the same order are searched alike.
pub proof fn lemma_entry_index_same_ids(s1: Seq<SubAgentEntry>, s2: Seq<SubAgentEntry>, id: u64)
    requires
        s1.len() == s2.len(),
        forall|j: int| 0 <= j < s1.len() ==> s1[j].id == s2[j].id,
    ensures
        entry_index(s1, id) == entry_index(s2, id),
    decreases s1.len(),
{
    if s1.len() > 0 && s1[0].id != id {
        let t1 = s1.drop_first();
        let t2 = s2.drop_first();
        assert(forall|j: int| 0 <= j < t1.len() ==> t1[j] == s1[j + 1] && t2[j] == s2[j + 1]);
        lemma_entry_index_same_ids(t1, t2, id);
    }
}

/// The two entry sequences agree everywhere but at `k`, where the id
/// is kept.
pub open spec fn entries_match_except(
    pre: Seq<SubAgentEntry>,
    post: Seq<SubAgentEntry>,
    k: int,
) -> bool {
    &&& post.len() == pre.len()
    &&& 0 <= k < pre.len()
    &&& forall|j: int| 0 <= j < pre.len() && j != k ==> post[j] == pre[j]
    &&& post[k].id == pre[k].id
}

/// The state's fields other than the transcript buffer and its flag.
pub open spec fn same_except_transcript(pre: SubAgentState, post: SubAgentState) -> bool {
    &&& post.template == pre.template
    &&& post.title == pre.title
    &&& post.status == pre.status
    &&& post.tool_uses == pre.tool_uses
    &&& post.total_tokens == pre.total_tokens
    &&& post.last_activity == pre.last_activity
    &&& post.drained_messages == pre.drained_messages
    &&& post.drained_plan_suggestions == pre.drained_plan_suggestions
    &&& post.result == pre.result
    &&& post.warnings == pre.warnings
    &&& post.cancel_requested == pre.cancel_requested
    &&& post.submission_attached == pre.submission_attached
}

/// Renders each line of the message into the transcript ring, evicting
/// the oldest lines beyond the budget and stickily marking truncation.
pub fn append_transcript_tail(state: &mut SubAgentState, msg: &str)
    requires
        old(state).wf(),
    ensures
        final(state).wf(),
        (seq_views(final(state).transcript_tail@), final(state).transcript_truncated)
            == ring_append_message(
            seq_views(old(state).transcript_tail@),
            old(state).transcript_truncated,
            msg@,
        ),
        same_except_transcript(*old(state), *final(state)),
        old(state).transcript_truncated ==> final(state).transcript_truncated,
{
    let ghost orig_views = seq_views(old(state).transcript_tail@);
    let ghost orig_trunc = old(state).transcript_truncated;
    let ghost all = line_split(msg@);
    let lines = split_lines(msg);
    let n = lines.len();
    let mut i: usize = 0;
    proof {
        assert(all.subrange(0, 0) =~= Seq::<Seq<char>>::empty());
    }
    while i < n
        invariant
            old(state).wf(),
            n == lines@.len(),
            seq_views(lines@) == all,
            all == line_split(msg@),
            0 <= i <= n,
            orig_views == seq_views(old(state).transcript_tail@),
            orig_trunc == old(state).transcript_truncated,
            (seq_views(state.transcript_tail@), state.transcript_truncated) == ring_append_lines(
                orig_views,
                orig_trunc,
                all.subrange(0, i as int),
            ),
            state.wf(),
            same_except_transcript(*old(state), *state),
            orig_trunc ==> state.transcript_truncated,
        decreases n - i,
    {
        let ghost pre_views = seq_views(state.transcript_tail@);
        let ghost pre_trunc = state.transcript_truncated;
        let t = str_trim_end(lines[i].as_str());
        proof {
            assert(seq_views(lines@)[i as int] == lines@[i as int]@);
        }
        if !t.is_empty() {
            let clipped = clip_transcript_line(t);
            state.transcript_tail.push(clipped);
            proof {
                assert(seq_views(state.transcript_tail@) =~= pre_views.push(
                    crate::transcript::clip_spec(t@),
                ));
            }
            if state.transcript_tail.len() > SUBAGENT_TRANSCRIPT_MAX_LINES {
                let ghost grown = seq_views(state.transcript_tail@);
                state.transcript_tail.remove(0);
                state.transcript_truncated = true;
                proof {
                    assert(seq_views(state.transcript_tail@) =~= grown.drop_first());
                }
            }
        }
        proof {
            lemma_ring_append_lines_push(orig_views, orig_trunc, all.subrange(0, i as int), all[i as int]);
            assert(all.subrange(0, i as int + 1) =~= all.subrange(0, i as int).push(all[i as int]));
        }
        i += 1;
    }
    proof {
        assert(all.subrange(0, n as int) =~= all);
        lemma_ring_append_lines_bound(orig_views, orig_trunc, all);
    }
}

impl Default for SubAgentsManager {
    /// The same empty registry `new` builds.
    fn default() -> (r: Self)
        ensures
            r.wf(),
            r.entries@.len() == 0,
            r.next_id == 0,
            !r.sender_attached,
            r.last_update is None,
    {
        SubAgentsManager::new()
    }
}

/// The registry and publisher state: all entries in insertion order,
/// the next fresh id, whether a downstream sender is attached, and the
/// last snapshot pushed to it.
#[derive(Debug)]
pub struct SubAgentsManager {
    pub next_id: u64,
    pub entries: Vec<SubAgentEntry>,
    pub sender_attached: bool,
    pub last_update: Option<crate::protocol::SubAgentsUpdateEvent>,
}

impl SubAgentsManager {
    /// The registry invariant: ids strictly increase with insertion
    /// order (so they are unique and never reused), every id is below
    /// the next fresh one, and every entry keeps its own invariant.
    pub open spec fn wf(self) -> bool {
        &&& forall|i: int, j: int|
            0 <= i < j < self.entries@.len() ==> self.entries@[i].id < self.entries@[j].id
        &&& forall|i: int| 0 <= i < self.entries@.len() ==> self.entries@[i].id < self.next_id
        &&& forall|i: int| 0 <= i < self.entries@.len() ==> self.entries@[i].state.wf()
    }

    /// The administrative fields untouched by entry mutations.
    pub open spec fn admin_unchanged(pre: Self, post: Self) -> bool {
        &&& post.next_id == pre.next_id
        &&& post.sender_attached == pre.sender_attached
    }

    /// An empty registry with no sender attached.
    pub fn new() -> (r: Self)
        ensures
            r.wf(),
            r.entries@.len() == 0,
            r.next_id == 0,
            !r.sender_attached,
            r.last_update is None,
    {
        SubAgentsManager {
            next_id: 0,
            entries: Vec::new(),
            sender_attached: false,
            last_update: None,
        }
    }

    /// Records that the single downstream sender has been registered.
    /// The sender itself lives with the caller; snapshots are handed
    /// back to it from the publishing operations.
    pub fn set_event_sender(&mut self)
        ensures
            final(self).sender_attached,
            final(self).entries == old(self).entries,
            final(self).next_id == old(self).next_id,
            final(self).last_update == old(self).last_update,
    {
        self.sender_attached = true;
    }

    /// Index of the entry with the given id, if any.
    pub fn find_index(&self, id: u64) -> (r: Option<usize>)
        ensures
            r is Some <==> has_entry(self.entries@, id),
            r matches Some(k) ==> entry_index(self.entries@, id) == Some(k as int),
    {
        let n = self.entries.len();
        let mut i: usize = 0;
        while i < n
            invariant
                n == self.entries@.len(),
                0 <= i <= n,
                forall|j: int| 0 <= j < i ==> self.entries@[j].id != id,
            decreases n - i,
        {
            if self.entries[i].id == id {
                proof {
                    lemma_entry_index_at(self.entries@, id, i as int);
                }
                return Some(i);
            }
            i += 1;
        }
        proof {
            lemma_entry_index_none(self.entries@, id);
        }
        None
    }
}

} // verus!

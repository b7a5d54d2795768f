//! The update publisher: projects the registry into a complete
//! downstream snapshot and pushes one only when it differs from the
//! snapshot pushed before, so that two mutations with the same visible
//! projection yield a single event.

use vstd::prelude::*;

use crate::protocol::opt_activity_eq;
use crate::protocol::SubAgentUiItem;
use crate::protocol::SubAgentsUpdateEvent;
use crate::registry::SubAgentEntry;
use crate::registry::SubAgentsManager;
use crate::status::SubAgentStatus;
use crate::text::seq_views;
use crate::text::str_eq;

verus! {

/// Count of entries whose status is `Running`.
pub open spec fn count_running(s: Seq<SubAgentEntry>) -> int
    decreases s.len(),
{
    if s.len() == 0 {
        0
    } else {
        count_running(s.drop_last()) + if s.last().state.status == SubAgentStatus::Running {
            1int
        } else {
            0int
        }
    }
}

pub proof fn lemma_count_running_bounds(s: Seq<SubAgentEntry>)
    ensures
        0 <= count_running(s) <= s.len(),
    decreases s.len(),
{
    if s.len() > 0 {
        lemma_count_running_bounds(s.drop_last());
    }
}

/// The snapshot row describes the entry: same id and observable
/// fields, text compared by content.
pub open spec fn item_matches_entry(u: SubAgentUiItem, e: SubAgentEntry) -> bool {
    &&& u.id == e.id
    &&& u.template@ == e.state.template@
    &&& u.title@ == e.state.title@
    &&& u.status == e.state.status
    &&& u.tool_uses == e.state.tool_uses
    &&& u.total_tokens == e.state.total_tokens
    &&& opt_activity_eq(u.last_activity, e.state.last_activity)
    &&& seq_views(u.transcript@) == seq_views(e.state.transcript_tail@)
    &&& u.transcript_truncated == e.state.transcript_truncated
}

/// The snapshot describes the registry: counts agree and every row
/// describes its entry, in order.
pub open spec fn update_matches_state(u: SubAgentsUpdateEvent, s: Seq<SubAgentEntry>) -> bool {
    &&& u.created_count == s.len()
    &&& u.running_count == count_running(s)
    &&& u.agents@.len() == s.len()
    &&& forall|j: int| 0 <= j < s.len() ==> item_matches_entry(u.agents@[j], s[j])
}

/// Whether publishing now would push a snapshot: a sender must be
/// attached and the last pushed snapshot, if any, must no longer
/// describe the registry.
pub open spec fn should_emit(m: SubAgentsManager) -> bool {
    m.sender_attached && match m.last_update {
        Option::None => true,
        Option::Some(p) => !update_matches_state(p, m.entries@),
    }
}

/// An exact copy of a vector of strings.
pub fn clone_string_vec(v: &Vec<String>) -> (r: Vec<String>)
    ensures
        r@ == v@,
{
    let n = v.len();
    let mut r: Vec<String> = Vec::new();
    let mut i: usize = 0;
    while i < n
        invariant
            n == v@.len(),
            0 <= i <= n,
            r@ =~= v@.subrange(0, i as int),
        decreases n - i,
    {
        r.push(v[i].clone());
        i += 1;
    }
    proof {
        assert(r@ =~= v@);
    }
    r
}

/// True when two vectors of strings hold the same texts in the same
/// order.
pub fn string_vecs_match(a: &Vec<String>, b: &Vec<String>) -> (r: bool)
    ensures
        r == (seq_views(a@) == seq_views(b@)),
{
    let n = a.len();
    if n != b.len() {
        proof {
            assert(seq_views(a@).len() != seq_views(b@).len());
        }
        return false;
    }
    let mut i: usize = 0;
    while i < n
        invariant
            n == a@.len(),
            n == b@.len(),
            0 <= i <= n,
            forall|j: int| 0 <= j < i ==> a@[j]@ == b@[j]@,
        decreases n - i,
    {
        if !str_eq(a[i].as_str(), b[i].as_str()) {
            proof {
                assert(seq_views(a@)[i as int] != seq_views(b@)[i as int]);
            }
            return false;
        }
        i += 1;
    }
    proof {
        assert(seq_views(a@) =~= seq_views(b@));
    }
    true
}

/// True when the snapshot row still describes the entry.
fn item_still_matches(u: &SubAgentUiItem, e: &SubAgentEntry) -> (r: bool)
    ensures
        r == item_matches_entry(*u, *e),
{
    if u.id != e.id {
        return false;
    }
    if !str_eq(u.template.as_str(), e.state.template.as_str()) {
        return false;
    }
    if !str_eq(u.title.as_str(), e.state.title.as_str()) {
        return false;
    }
    if u.status != e.state.status {
        return false;
    }
    if u.tool_uses != e.state.tool_uses {
        return false;
    }
    let tokens_same = match (u.total_tokens, e.state.total_tokens) {
        (Option::None, Option::None) => true,
        (Option::Some(x), Option::Some(y)) => x == y,
        _ => false,
    };
    if !tokens_same {
        return false;
    }
    let activity_same = match (&u.last_activity, &e.state.last_activity) {
        (Option::None, Option::None) => true,
        (Option::Some(x), Option::Some(y)) => x.kind == y.kind && str_eq(
            x.label.as_str(),
            y.label.as_str(),
        ),
        _ => false,
    };
    if !activity_same {
        return false;
    }
    if !string_vecs_match(&u.transcript, &e.state.transcript_tail) {
        return false;
    }
    u.transcript_truncated == e.state.transcript_truncated
}

/// True when the snapshot still describes the whole registry.
fn update_still_matches(u: &SubAgentsUpdateEvent, entries: &Vec<SubAgentEntry>) -> (r: bool)
    ensures
        r == update_matches_state(*u, entries@),
{
    let n = entries.len();
    if u.created_count != n {
        return false;
    }
    if u.agents.len() != n {
        return false;
    }
    let mut running: usize = 0;
    let mut i: usize = 0;
    proof {
        assert(entries@.subrange(0, 0) =~= Seq::<SubAgentEntry>::empty());
    }
    while i < n
        invariant
            n == entries@.len(),
            n == u.agents@.len(),
            0 <= i <= n,
            running as int == count_running(entries@.subrange(0, i as int)),
            running <= i,
            forall|j: int| 0 <= j < i ==> item_matches_entry(u.agents@[j], entries@[j]),
        decreases n - i,
    {
        if !item_still_matches(&u.agents[i], &entries[i]) {
            return false;
        }
        proof {
            assert(entries@.subrange(0, i as int + 1).drop_last() =~= entries@.subrange(
                0,
                i as int,
            ));
            assert(entries@.subrange(0, i as int + 1).last() == entries@[i as int]);
        }
        if matches!(entries[i].state.status, SubAgentStatus::Running) {
            running += 1;
        }
        i += 1;
    }
    proof {
        assert(entries@.subrange(0, n as int) =~= entries@);
    }
    u.running_count == running
}

impl SubAgentsManager {
    /// Builds the complete snapshot describing the current registry.
    pub fn build_update(&self) -> (u: SubAgentsUpdateEvent)
        ensures
            update_matches_state(u, self.entries@),
    {
        let n = self.entries.len();
        let mut running: usize = 0;
        let mut agents: Vec<SubAgentUiItem> = Vec::new();
        let mut i: usize = 0;
        proof {
            assert(self.entries@.subrange(0, 0) =~= Seq::<SubAgentEntry>::empty());
        }
        while i < n
            invariant
                n == self.entries@.len(),
                0 <= i <= n,
                running as int == count_running(self.entries@.subrange(0, i as int)),
                running <= i,
                agents@.len() == i as int,
                forall|j: int| 0 <= j < i ==> item_matches_entry(agents@[j], self.entries@[j]),
            decreases n - i,
        {
            let e = &self.entries[i];
            let item = SubAgentUiItem {
                id: e.id,
                template: e.state.template.clone(),
                title: e.state.title.clone(),
                status: e.state.status,
                tool_uses: e.state.tool_uses,
                total_tokens: e.state.total_tokens,
                last_activity: match &e.state.last_activity {
                    Option::Some(a) => Some(a.duplicate()),
                    Option::None => None,
                },
                transcript: clone_string_vec(&e.state.transcript_tail),
                transcript_truncated: e.state.transcript_truncated,
            };
            agents.push(item);
            proof {
                assert(self.entries@.subrange(0, i as int + 1).drop_last() =~= self
                    .entries@
                    .subrange(0, i as int));
                assert(self.entries@.subrange(0, i as int + 1).last() == self.entries@[i as int]);
            }
            if matches!(e.state.status, SubAgentStatus::Running) {
                running += 1;
            }
            i += 1;
        }
        proof {
            assert(self.entries@.subrange(0, n as int) =~= self.entries@);
        }
        SubAgentsUpdateEvent { created_count: n, running_count: running, agents }
    }

    /// Publishes at most one snapshot: none while no sender is
    /// attached, and none when the last pushed snapshot still
    /// describes the registry; otherwise the new snapshot is both
    /// remembered and returned for the caller to push downstream.
    pub fn emit_update_if_changed(&mut self) -> (r: Option<SubAgentsUpdateEvent>)
        ensures
            final(self).entries == old(self).entries,
            final(self).next_id == old(self).next_id,
            final(self).sender_attached == old(self).sender_attached,
            r is Some <==> should_emit(*old(self)),
            r matches Some(u) ==> update_matches_state(u, old(self).entries@),
            r is Some ==> (final(self).last_update matches Some(p) && update_matches_state(
                p,
                old(self).entries@,
            )),
            r is None ==> final(self).last_update == old(self).last_update,
            !should_emit(*final(self)),
    {
        if !self.sender_attached {
            return None;
        }
        let fresh = match &self.last_update {
            Option::None => true,
            Option::Some(prev) => !update_still_matches(prev, &self.entries),
        };
        if !fresh {
            return None;
        }
        let stored = self.build_update();
        let out = self.build_update();
        self.last_update = Some(stored);
        Some(out)
    }
}

} // verus!

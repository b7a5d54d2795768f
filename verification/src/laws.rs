//! Registry properties stated on their own: id freshness, idempotent
//! cancellation, absorbing terminal statuses, and duplicate-snapshot
//! suppression. Each is proved from the definitions the operations'
//! contracts are written in.

use vstd::prelude::*;

use crate::ops::state_cancel;
use crate::ops::state_complete;
use crate::ops::state_failed;
use crate::ops::state_set_status;
use crate::publisher::should_emit;
use crate::publisher::update_matches_state;
use crate::registry::has_entry;
use crate::registry::lemma_entry_index_some;
use crate::registry::SubAgentState;
use crate::registry::SubAgentsManager;
use crate::status::SubAgentStatus;

verus! {

/// An id at or above the registry's next fresh id was never handed
/// out, so it names no entry: polling it yields nothing and
/// cancelling it reports `false`, by the contracts of `poll` and
/// `cancel`.
pub proof fn lemma_unspawned_id_absent(m: SubAgentsManager, id: u64)
    requires
        m.wf(),
        id >= m.next_id,
    ensures
        !has_entry(m.entries@, id),
{
    lemma_entry_index_some(m.entries@, id);
}

/// Cancelling twice is the same as cancelling once, and an entry that
/// was `Running` or already `Canceled` reads `Canceled` afterwards.
pub proof fn lemma_cancel_idempotent(s: SubAgentState)
    ensures
        state_cancel(state_cancel(s)) == state_cancel(s),
        s.status == SubAgentStatus::Running || s.status == SubAgentStatus::Canceled
            ==> state_cancel(s).status == SubAgentStatus::Canceled,
{
}

/// Once a status is terminal, no status transition — completion,
/// failure, cancellation or an explicit set — changes it.
pub proof fn lemma_terminal_status_absorbing(
    s: SubAgentState,
    status: SubAgentStatus,
    result: Option<String>,
    post: SubAgentState,
    errors: Seq<String>,
)
    requires
        s.status.spec_is_terminal(),
    ensures
        state_set_status(s, status).status == s.status,
        state_complete(s, result).status == s.status,
        state_cancel(s).status == s.status,
        state_failed(s, post, errors) ==> post.status == s.status,
{
}

/// While the last pushed snapshot still describes the registry,
/// publishing pushes nothing: together with the contract of
/// `emit_update_if_changed` — which always leaves the registry in
/// this state — two mutations with identical projections yield one
/// downstream event, not two.
pub proof fn lemma_identical_projection_suppressed(m: SubAgentsManager)
    requires
        m.last_update matches Some(p) && update_matches_state(p, m.entries@),
    ensures
        !should_emit(m),
{
}

} // verus!

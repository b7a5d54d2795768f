//! The lifecycle status of a sub-agent entry.

use vstd::prelude::*;

verus! {

/// Lifecycle status of a sub-agent. `Running` is the only non-terminal
/// status; the three terminal statuses are absorbing.
#[derive(Clone, Copy, Debug, PartialEq, Eq, Structural)]
pub enum SubAgentStatus {
    Running,
    Completed,
    Canceled,
    Failed,
}

impl SubAgentStatus {
    /// True of the statuses a sub-agent can never leave.
    pub open spec fn spec_is_terminal(self) -> bool {
        self != SubAgentStatus::Running
    }

    /// A status is terminal exactly when it is not `Running`.
    #[verifier::when_used_as_spec(spec_is_terminal)]
    pub fn is_terminal(self) -> (r: bool)
        ensures
            r == self.spec_is_terminal(),
    {
        match self {
            SubAgentStatus::Running => false,
            _ => true,
        }
    }
}

} // verus!

//! The error taxonomy of the tool.
//!
//! Every fallible function of this crate says in its contract exactly
//! which variant it returns on which inputs.

use vstd::prelude::*;

verus! {

/// Outcome of evaluating one convergence predicate against a snapshot,
/// broken down into the three sub-conditions the predicate is made of.
#[derive(Clone, Copy, Debug, PartialEq, Eq, Structural)]
pub struct VerifyReport {
    /// The process sub-condition held (empty for OFF, non-empty for ON).
    pub processes_ok: bool,
    /// The launch-agent sub-condition held.
    pub agent_ok: bool,
    /// The extension sub-condition held.
    pub extensions_ok: bool,
}

impl VerifyReport {
    /// The whole predicate holds exactly when every sub-condition does.
    pub open spec fn spec_all_ok(self) -> bool {
        self.processes_ok && self.agent_ok && self.extensions_ok
    }

    pub fn all_ok(&self) -> (r: bool)
        ensures
            r == self.spec_all_ok(),
    {
        self.processes_ok && self.agent_ok && self.extensions_ok
    }
}

/// The failure taxonomy: every error this crate's functions return is
/// one of these.
#[derive(Clone, Debug, PartialEq, Eq)]
pub enum ToggleError {
    /// A required path or environment fact is unavailable.
    DiscoveryError,
    /// An underlying OS command failed at a call site that is not
    /// documented best-effort.
    ExternalCommandError,
    /// A bounded poll wait exceeded its deadline; carries the names of
    /// the processes still running when the deadline passed.
    TimeoutError(Vec<String>),
    /// The retry combinator exhausted its attempts; carries the number
    /// of attempts made and the sub-conditions still unsatisfied on the
    /// last attempt.
    VerificationFailure(usize, VerifyReport),
    /// A destructive operation was requested while its safety gate was
    /// not satisfied; nothing was done.
    PreconditionError,
}

} // verus!

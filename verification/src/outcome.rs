//! Per-workload outcomes of one reconciliation run. Errors are collected,
//! never discarded: the run as a whole succeeds exactly when every workload
//! did.

use vstd::prelude::*;

verus! {

/// Why one workload could not be brought to its target state. Each case is
/// local to that workload; the rest of the batch goes on.
#[derive(Debug, Clone, Copy, PartialEq, Eq, Structural)]
pub enum OutcomeError {
    /// The Replica Memory annotation is present but unparsable; no patch
    /// was submitted for this workload.
    Decode,
    /// The workload vanished between discovery and patch.
    NotFound,
    /// The cluster rejected the patch over field ownership.
    Conflict,
    /// The cluster rejected the patch as invalid.
    Validation,
}

/// What happened to one workload: whether its patch was applied, and the
/// failure when it was not.
pub struct WorkloadOutcome {
    pub workload_name: String,
    pub applied: bool,
    pub error: Option<OutcomeError>,
}

pub open spec fn spec_batch_succeeded(outcomes: Seq<WorkloadOutcome>) -> bool {
    forall|i: int| 0 <= i < outcomes.len() ==> (#[trigger] outcomes[i].error) is None
}

/// Whether a whole run succeeded: true exactly when no workload reported an
/// error.
pub fn batch_succeeded(outcomes: &Vec<WorkloadOutcome>) -> (r: bool)
    ensures
        r == spec_batch_succeeded(outcomes@),
{
    let n: usize = outcomes.len();
    let mut i: usize = 0;
    while i < n
        invariant
            0 <= i <= n,
            n == outcomes@.len(),
            forall|j: int| 0 <= j < i ==> (#[trigger] outcomes@[j].error) is None,
        decreases n - i,
    {
        if outcomes[i].error.is_some() {
            return false;
        }
        i = i + 1;
    }
    true
}

} // verus!

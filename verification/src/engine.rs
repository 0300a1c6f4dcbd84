//! Scale Decision Engine: a pure function of the workload snapshot and the
//! requested action. Suspend remembers the current replica count and scales
//! to zero; Resume restores the remembered count, or touches metadata only
//! when nothing non-zero is remembered.

use vstd::prelude::*;

use crate::codec::DecodeError;
use crate::codec::decode_ok;
use crate::codec::decoded;
use crate::codec::target_replicas;
use crate::patch::PatchDocument;
use crate::patch::build_patch;
use crate::patch::patch_of;
use crate::workload::Workload;
use crate::workload::current_replicas;
use crate::workload::spec_current_replicas;

verus! {

/// The verb a run applies to every workload the selector matched.
#[derive(Debug, Clone, Copy, PartialEq, Eq, Structural)]
pub enum Action {
    /// Restore the remembered replica count.
    Resume,
    /// Scale to zero, remembering the count in effect.
    Suspend,
}

/// What one workload's patch must do: the replica count to apply, whether
/// the replica declaration is rewritten at all, and the count to record in
/// the Replica Memory annotation.
#[derive(Debug, Clone, Copy, PartialEq, Eq, Structural)]
pub struct ScaleDecision {
    pub target_replicas: u32,
    pub must_update_spec: bool,
    pub remembered_replicas: i32,
}

/// Suspend always rewrites the replica declaration to zero and records the
/// count currently in effect, even when that count is already zero.
pub open spec fn suspend_decision(current: int) -> ScaleDecision {
    ScaleDecision {
        target_replicas: 0,
        must_update_spec: true,
        remembered_replicas: current as i32,
    }
}

/// Resume restores the decoded count when it is non-zero; when zero it only
/// re-asserts the annotation, leaving the replica declaration alone.
pub open spec fn resume_decision(target: nat) -> ScaleDecision {
    ScaleDecision {
        target_replicas: target as u32,
        must_update_spec: target != 0,
        remembered_replicas: target as i32,
    }
}

/// The Replica Memory is readable and its value fits the replica field.
pub open spec fn memory_ok(anns: Seq<(Seq<char>, Seq<char>)>) -> bool {
    decode_ok(anns) && decoded(anns) <= i32::MAX
}

/// Decides the scale change for one workload. Suspend never fails; Resume
/// fails exactly when the Replica Memory annotation holds a value that is
/// not a replica count, and that workload is then left unpatched.
pub fn decide(action: Action, w: &Workload) -> (r: Result<ScaleDecision, DecodeError>)
    requires
        w.wf(),
    ensures
        action == Action::Suspend ==> r == Ok::<ScaleDecision, DecodeError>(
            suspend_decision(spec_current_replicas(w)),
        ),
        action == Action::Resume && memory_ok(w.annotations@) ==> r == Ok::<
            ScaleDecision,
            DecodeError,
        >(resume_decision(decoded(w.annotations@))),
        action == Action::Resume && !memory_ok(w.annotations@) ==> r is Err,
{
    match action {
        Action::Suspend => {
            let current = current_replicas(w);
            Ok(
                ScaleDecision {
                    target_replicas: 0,
                    must_update_spec: true,
                    remembered_replicas: current,
                },
            )
        },
        Action::Resume => {
            match target_replicas(&w.annotations) {
                Err(e) => Err(e),
                Ok(target) => {
                    if target > i32::MAX as u32 {
                        Err(DecodeError)
                    } else if target == 0 {
                        Ok(
                            ScaleDecision {
                                target_replicas: 0,
                                must_update_spec: false,
                                remembered_replicas: 0,
                            },
                        )
                    } else {
                        Ok(
                            ScaleDecision {
                                target_replicas: target,
                                must_update_spec: true,
                                remembered_replicas: target as i32,
                            },
                        )
                    }
                },
            }
        },
    }
}

/// What one workload's decide-then-build run hands back: the document a
/// suspend or a readable resume calls for, and a failure exactly when the
/// Replica Memory cannot be read as a replica count.
pub open spec fn step_post(
    action: Action,
    w: Workload,
    r: Result<PatchDocument, DecodeError>,
) -> bool {
    &&& action == Action::Suspend ==> (r matches Ok(p) && p@ == patch_of(
        suspend_decision(spec_current_replicas(&w)),
    ))
    &&& action == Action::Resume && memory_ok(w.annotations@) ==> (r matches Ok(p) && p@
        == patch_of(resume_decision(decoded(w.annotations@))))
    &&& action == Action::Resume && !memory_ok(w.annotations@) ==> r is Err
}

/// Runs the decide-then-build pipeline for one workload: the document to
/// submit, or the decode failure that leaves the workload unpatched.
pub fn reconcile_step(action: Action, w: &Workload) -> (r: Result<PatchDocument, DecodeError>)
    requires
        w.wf(),
    ensures
        step_post(action, *w, r),
{
    match decide(action, w) {
        Err(e) => Err(e),
        Ok(d) => Ok(build_patch(&d)),
    }
}

/// Runs the pipeline over a whole discovered set: one result per workload,
/// in order, each computed from that workload's snapshot alone.
pub fn reconcile_plan(action: Action, workloads: &Vec<Workload>) -> (r: Vec<
    Result<PatchDocument, DecodeError>,
>)
    requires
        forall|i: int| 0 <= i < workloads@.len() ==> (#[trigger] workloads@[i]).wf(),
    ensures
        r@.len() == workloads@.len(),
        forall|i: int| 0 <= i < r@.len() ==> step_post(action, workloads@[i], #[trigger] r@[i]),
{
    let n: usize = workloads.len();
    let mut r: Vec<Result<PatchDocument, DecodeError>> = Vec::new();
    let mut i: usize = 0;
    while i < n
        invariant
            0 <= i <= n,
            n == workloads@.len(),
            forall|k: int| 0 <= k < n ==> (#[trigger] workloads@[k]).wf(),
            r@.len() == i,
            forall|k: int| 0 <= k < i ==> step_post(action, workloads@[k], #[trigger] r@[k]),
        decreases n - i,
    {
        r.push(reconcile_step(action, &workloads[i]));
        i = i + 1;
    }
    r
}

} // verus!

//! The guarantees the reconciler gives, proved over the decision engine,
//! the patch builder and the patch semantics of `model`.

use vstd::prelude::*;

use crate::codec::dec_str;
use crate::codec::decoded;
use crate::codec::lemma_dec_str_roundtrip;
use crate::codec::replicas_key;
use crate::engine::memory_ok;
use crate::engine::resume_decision;
use crate::engine::suspend_decision;
use crate::model::apply_patch;
use crate::model::lemma_set_ann_lookup_other;
use crate::model::lemma_set_ann_lookup_same;
use crate::model::workload_model;
use crate::patch::patch_of;
use crate::workload::Workload;
use crate::workload::lookup;
use crate::workload::spec_current_replicas;

verus! {

/// Suspending a workload that carries no Replica Memory yet declares zero
/// replicas and records the count that was in effect.
pub proof fn law_suspend_records_and_zeroes(w: &Workload)
    requires
        w.wf(),
        lookup(w.annotations@, replicas_key()) is None,
    ensures
        ({
            let after = apply_patch(
                workload_model(w),
                patch_of(suspend_decision(spec_current_replicas(w))),
            );
            after.replicas == Some(0int) && lookup(after.annotations, replicas_key()) == Some(
                dec_str(spec_current_replicas(w) as nat),
            )
        }),
{
    lemma_set_ann_lookup_same(
        w.annotations@,
        replicas_key(),
        dec_str(spec_current_replicas(w) as nat),
    );
}

/// Suspending a workload already at zero replicas is idempotent on the
/// replica declaration and re-derives the memory from the current count:
/// whatever value was remembered, it is reset to zero.
pub proof fn law_resuspend_resets_memory(w: &Workload, m: Seq<char>)
    requires
        w.wf(),
        spec_current_replicas(w) == 0,
        lookup(w.annotations@, replicas_key()) == Some(m),
    ensures
        ({
            let after = apply_patch(
                workload_model(w),
                patch_of(suspend_decision(spec_current_replicas(w))),
            );
            after.replicas == Some(0int) && lookup(after.annotations, replicas_key()) == Some(
                dec_str(0),
            )
        }),
{
    lemma_set_ann_lookup_same(w.annotations@, replicas_key(), dec_str(0));
}

/// Suspend then Resume restores the replica declaration to the count
/// recorded at suspend time, for any positive count.
pub proof fn law_suspend_resume_roundtrip(w: &Workload)
    requires
        w.wf(),
        spec_current_replicas(w) > 0,
    ensures
        ({
            let suspended = apply_patch(
                workload_model(w),
                patch_of(suspend_decision(spec_current_replicas(w))),
            );
            memory_ok(suspended.annotations) && apply_patch(
                suspended,
                patch_of(resume_decision(decoded(suspended.annotations))),
            ).replicas == Some(spec_current_replicas(w))
        }),
{
    let current = spec_current_replicas(w);
    lemma_set_ann_lookup_same(w.annotations@, replicas_key(), dec_str(current as nat));
    lemma_dec_str_roundtrip(current as nat);
}

/// Resume on a workload whose Replica Memory is absent or reads zero never
/// changes the replica declaration: it only writes the annotation, as zero,
/// and leaves every other annotation as it was.
pub proof fn law_resume_without_memory_leaves_replicas(w: &Workload)
    requires
        w.wf(),
        lookup(w.annotations@, replicas_key()) is None || lookup(w.annotations@, replicas_key())
            == Some("0"@),
    ensures
        memory_ok(w.annotations@),
        decoded(w.annotations@) == 0,
        ({
            let after = apply_patch(
                workload_model(w),
                patch_of(resume_decision(decoded(w.annotations@))),
            );
            after.replicas == workload_model(w).replicas && lookup(
                after.annotations,
                replicas_key(),
            ) == Some(dec_str(0)) && forall|k: Seq<char>|
                k != replicas_key() ==> #[trigger] lookup(after.annotations, k) == lookup(
                    w.annotations@,
                    k,
                )
        }),
{
    reveal_strlit("0");
    if lookup(w.annotations@, replicas_key()) == Some("0"@) {
        assert("0"@ =~= seq!['0']);
        lemma_dec_str_roundtrip(0);
        assert(dec_str(0) =~= seq!['0']);
    }
    lemma_set_ann_lookup_same(w.annotations@, replicas_key(), dec_str(0));
    let after = apply_patch(workload_model(w), patch_of(resume_decision(decoded(w.annotations@))));
    assert forall|k: Seq<char>| k != replicas_key() implies #[trigger] lookup(after.annotations, k)
        == lookup(w.annotations@, k) by {
        lemma_set_ann_lookup_other(w.annotations@, replicas_key(), dec_str(0), k);
    }
}

} // verus!

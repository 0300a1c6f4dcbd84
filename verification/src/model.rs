//! The effect of a patch on a workload, stated mathematically: the
//! declarative document overwrites exactly the fields it mentions — the
//! Replica Memory annotation always, the replica declaration only when the
//! document carries one — and leaves every other field as it was.

use vstd::prelude::*;

use crate::codec::replicas_key;
use crate::patch::PatchModel;
use crate::workload::Workload;
use crate::workload::lookup;

verus! {

/// A workload as the patch semantics sees it: the declared replica count,
/// if any, and the annotation entries.
pub ghost struct WorkloadModel {
    pub replicas: Option<int>,
    pub annotations: Seq<(Seq<char>, Seq<char>)>,
}

pub open spec fn workload_model(w: &Workload) -> WorkloadModel {
    WorkloadModel {
        replicas: match w.replicas {
            Some(r) => Some(r as int),
            None => None::<int>,
        },
        annotations: w.annotations@,
    }
}

/// Overwrites `key` in an entry sequence: the first entry carrying it is
/// replaced in place, and when none does the entry is appended.
pub open spec fn set_ann(
    anns: Seq<(Seq<char>, Seq<char>)>,
    key: Seq<char>,
    value: Seq<char>,
) -> Seq<(Seq<char>, Seq<char>)>
    decreases anns.len(),
{
    if anns.len() == 0 {
        seq![(key, value)]
    } else if anns[0].0 == key {
        seq![(key, value)] + anns.drop_first()
    } else {
        seq![anns[0]] + set_ann(anns.drop_first(), key, value)
    }
}

/// What submitting a patch document does to a workload: the annotation
/// entry is written under the fixed key, and the replica declaration is
/// rewritten exactly when the document carries one.
pub open spec fn apply_patch(m: WorkloadModel, p: PatchModel) -> WorkloadModel {
    WorkloadModel {
        replicas: match p.replicas {
            Some(t) => Some(t as int),
            None => m.replicas,
        },
        annotations: set_ann(m.annotations, replicas_key(), p.annotation_value),
    }
}

/// After an overwrite, the key reads back as the written value.
pub proof fn lemma_set_ann_lookup_same(
    anns: Seq<(Seq<char>, Seq<char>)>,
    key: Seq<char>,
    value: Seq<char>,
)
    ensures
        lookup(set_ann(anns, key, value), key) == Some(value),
    decreases anns.len(),
{
    if anns.len() == 0 {
    } else if anns[0].0 == key {
    } else {
        lemma_set_ann_lookup_same(anns.drop_first(), key, value);
        assert((seq![anns[0]] + set_ann(anns.drop_first(), key, value)).drop_first() =~= set_ann(
            anns.drop_first(),
            key,
            value,
        ));
    }
}

/// An overwrite of one key leaves every other key's value as it was.
pub proof fn lemma_set_ann_lookup_other(
    anns: Seq<(Seq<char>, Seq<char>)>,
    key: Seq<char>,
    value: Seq<char>,
    other: Seq<char>,
)
    requires
        other != key,
    ensures
        lookup(set_ann(anns, key, value), other) == lookup(anns, other),
    decreases anns.len(),
{
    if anns.len() == 0 {
        assert(seq![(key, value)].drop_first() =~= Seq::<(Seq<char>, Seq<char>)>::empty());
        assert(lookup(Seq::<(Seq<char>, Seq<char>)>::empty(), other) is None);
    } else if anns[0].0 == key {
        assert((seq![(key, value)] + anns.drop_first())[0] == (key, value));
        assert((seq![(key, value)] + anns.drop_first()).drop_first() =~= anns.drop_first());
    } else {
        lemma_set_ann_lookup_other(anns.drop_first(), key, value, other);
        assert((seq![anns[0]] + set_ann(anns.drop_first(), key, value))[0] == anns[0]);
        assert((seq![anns[0]] + set_ann(anns.drop_first(), key, value)).drop_first() =~= set_ann(
            anns.drop_first(),
            key,
            value,
        ));
    }
}

} // verus!

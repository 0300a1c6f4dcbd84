//! Patch Builder: turns a scale decision into the minimal declarative
//! partial-update document. The document mentions only the fields this
//! system owns: the Replica Memory annotation, and the replica declaration
//! when the decision rewrites it.

use vstd::prelude::*;
use vstd::string::StringExecFns;

use crate::codec::dec_str;
use crate::codec::encode;
use crate::engine::ScaleDecision;

verus! {

/// The mathematical content of a patch document: the annotation value to
/// write under the fixed key, and the replica count to declare, if any.
pub ghost struct PatchModel {
    pub annotation_value: Seq<char>,
    pub replicas: Option<u32>,
}

/// A partial-update document: exactly the annotation entry, plus the
/// replica declaration when the decision rewrites it. No other field of the
/// workload is ever mentioned.
pub struct PatchDocument {
    pub annotation_value: String,
    pub replicas: Option<u32>,
}

impl View for PatchDocument {
    type V = PatchModel;

    open spec fn view(&self) -> PatchModel {
        PatchModel { annotation_value: self.annotation_value@, replicas: self.replicas }
    }
}

/// The document a decision calls for: the remembered count encoded under
/// the fixed key, and the target count exactly when the declaration must
/// change.
pub open spec fn patch_of(d: ScaleDecision) -> PatchModel {
    PatchModel {
        annotation_value: dec_str(d.remembered_replicas as nat),
        replicas: if d.must_update_spec {
            Some(d.target_replicas)
        } else {
            None::<u32>
        },
    }
}

/// Builds the partial-update document for a decision.
pub fn build_patch(d: &ScaleDecision) -> (p: PatchDocument)
    requires
        d.remembered_replicas >= 0,
    ensures
        p@ == patch_of(*d),
{
    PatchDocument {
        annotation_value: encode(d.remembered_replicas as u32),
        replicas: if d.must_update_spec {
            Some(d.target_replicas)
        } else {
            None
        },
    }
}

/// The document rendered as the JSON text submitted to the cluster: the
/// fixed apply header, the one annotation entry, and the replica
/// declaration when present.
pub open spec fn json_of(p: PatchModel) -> Seq<char> {
    "{\"apiVersion\":\"apps/v1\",\"kind\":\"Deployment\",\"metadata\":{\"annotations\":{\"bal.io/target-replicas\":\""@
        + p.annotation_value + "\"}}"@ + (match p.replicas {
        Some(t) => ",\"spec\":{\"replicas\":"@ + dec_str(t as nat) + "}"@,
        None => Seq::<char>::empty(),
    }) + "}"@
}

impl PatchDocument {
    /// Renders the document as JSON text.
    pub fn render_json(&self) -> (s: String)
        ensures
            s@ == json_of(self@),
    {
        let mut s = String::from_str(
            "{\"apiVersion\":\"apps/v1\",\"kind\":\"Deployment\",\"metadata\":{\"annotations\":{\"bal.io/target-replicas\":\"",
        );
        s.append(self.annotation_value.as_str());
        s.append("\"}}");
        match &self.replicas {
            Some(t) => {
                s.append(",\"spec\":{\"replicas\":");
                let ts = encode(*t);
                s.append(ts.as_str());
                s.append("}");
            },
            None => {},
        }
        s.append("}");
        proof {
            assert(s@ =~= json_of(self@));
        }
        s
    }
}

} // verus!

//! Pauses and resumes replicated workloads by editing their declared replica
//! count, remembering the count in effect before a pause in a metadata
//! annotation so that a resume can restore it exactly.
//!
//! The crate holds the decision logic only: the replica-memory codec, the
//! scale decision engine, and the patch builder, with the guarantees they
//! give proved in `laws`. Listing workloads and submitting patches to the
//! cluster are left to the surrounding program.

pub mod args;
pub mod codec;
pub mod engine;
pub mod laws;
pub mod model;
pub mod outcome;
pub mod patch;
pub mod workload;

use vstd::prelude::*;

verus! {

/// Kinds of failure that the engine reports to its callers.
#[derive(Debug)]
pub enum RimError {
    /// A path, range or parameter that the engine refuses.
    InvalidRequest(String),
    /// The object has no head on any replica that was asked.
    NotFound,
    /// A part that a head refers to could not be had from any source.
    PartNotFound(String),
    /// Bytes whose SHA-256 differs from the one that was expected.
    HashMismatch { expected: String, actual: String },
    /// Fewer healthy replicas than a write needs.
    InsufficientReplicas { needed: usize, found: usize },
    /// A write transaction that did not commit.
    TwoPhaseCommit(String),
    /// A configuration that cannot be acted on.
    Config(String),
    /// A broken internal expectation.
    Internal(String),
}

} // verus!

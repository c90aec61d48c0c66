use vstd::prelude::*;

verus! {

/// Errors of anonymous-target registration and lookup.
#[derive(Debug, Clone, PartialEq, Eq)]
pub enum AnonTargetsError {
    /// The artifact with this name is not among the target's declared outputs.
    ArtifactNotFound(String),
    /// The attribute with this name cannot take part in a target's identity.
    InvalidAttribute(String),
    /// The target's evaluation failed with this message.
    EvaluationFailed(String),
    /// The target was already resolved or failed.
    DuplicateResolution,
    /// The target has not been resolved yet.
    NotYetResolved,
}

} // verus!

use vstd::prelude::*;

verus! {

/// Why a compile pass failed.
#[derive(Clone, Copy, Debug, PartialEq, Eq, Structural)]
pub enum ShaderError {
    /// A required input socket is unconnected and its kind has no default.
    MissingRequiredInput,
    /// The requested output socket is not one that the node's kind declares.
    UnknownOutputSocket,
    /// Evaluation came back to a node that was still being evaluated.
    CyclicGraph,
    /// The shader text could not be assembled.
    EmissionFailure,
}

} // verus!

//! Discrete categories of the signal chain: the reasoning depth that a dial
//! position falls into, and the severity of a constraint violation.

use vstd::prelude::*;

verus! {

/// Inference level — discrete categories of reasoning depth, from the hard
/// end of the dial (`Formal`) to the soft end (`Exploratory`).
#[derive(Debug, Clone, Copy, PartialEq, Eq, Structural)]
pub enum InferenceLevel {
    Formal,
    Bathy,
    Commit,
    Analysis,
    Review,
    Extrapolate,
    Creative,
    Exploratory,
}

/// Severity level for constraint violations.
#[derive(Debug, Clone, Copy, PartialEq, Eq, Structural)]
pub enum ViolationSeverity {
    /// Advisory: soft constraint, suggestion
    Advisory,
    /// Warning: balanced constraint, cost incurred
    Warning,
    /// Critical: hard constraint, failure
    Critical,
}

} // verus!

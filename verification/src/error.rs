//! Failure kinds of the signalling core.

use vstd::prelude::*;

verus! {

/// Why an operation failed. All failures are non-fatal: an invalid signal is
/// invalid, and there are no retries.
#[derive(Clone, Debug)]
pub enum SignalError {
    /// A caller-supplied value is out of range or malformed: a leaf index at
    /// or past the leaf count, a non-canonical field element, a leaf count
    /// that is not a power of two, a tree height of zero, or a cap deeper
    /// than the tree.
    BadArgument,
    /// A witness assignment left a target unset or assigned conflicting
    /// values. This is always a bug in the core; the backend's words follow.
    WitnessGapOrConflict(String),
    /// The backend rejected the witness when producing the proof; its words
    /// are surfaced verbatim.
    ProofGeneration(String),
    /// The backend reported an invalid proof or a public-input mismatch. A
    /// single failure, not classified further.
    Verification,
}

} // verus!

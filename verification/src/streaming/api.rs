//! Reasons reported with stream events.

use vstd::prelude::*;

verus! {

/// Reason for stream stop.
#[derive(Clone, Copy, Debug, PartialEq, Eq, Structural)]
pub enum StopReason {
    UserRequested,
    NetworkFailure,
    ResourceExhaustion,
    PermissionDenied,
    Error,
}

/// Reason for quality change.
#[derive(Clone, Copy, Debug, PartialEq, Eq, Structural)]
pub enum QualityChangeReason {
    UserRequested,
    NetworkAdaptation,
    ResourceConstraint,
    ViewerRequest,
    Automatic,
}

} // verus!

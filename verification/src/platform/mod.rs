//! Platform support: errors shared by the platform layers, and the parts of
//! Windows support that are decided without asking the system.

pub mod windows;

use vstd::prelude::*;

verus! {

/// Errors of the platform layer.
#[derive(Debug)]
pub enum PlatformError {
    /// The operation needs another platform.
    UnsupportedPlatform(String),
    /// A system call failed.
    SystemError(String),
    /// Platform services could not be set up.
    InitializationFailed(String),
}

/// Result type of the platform layer.
pub type PlatformResult<T> = Result<T, PlatformError>;

} // verus!

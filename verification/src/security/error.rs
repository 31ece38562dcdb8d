//! Error types of the security subsystem.

use vstd::prelude::*;

verus! {

/// Comprehensive error types for the security system.
#[derive(Debug)]
pub enum SecurityError {
    /// Errors related to identity management.
    Identity(IdentityError),
    /// Errors related to trust management.
    Trust(TrustError),
    /// Errors related to encryption operations.
    Encryption(EncryptionError),
    /// Errors related to security policy violations.
    Policy(PolicyError),
    /// Errors related to authentication.
    Authentication(AuthenticationError),
    /// Security policy violation.
    PolicyViolation(String),
    /// Generic security error.
    Generic(String),
    /// Other security errors.
    Other(String),
}

/// Result type for security operations.
pub type SecurityResult<T> = Result<T, SecurityError>;

/// Identity-related errors.
#[derive(Debug)]
pub enum IdentityError {
    GenerationFailed(String),
    LoadFailed(String),
    SaveFailed(String),
    Corrupted(String),
    KeystoreError(String),
    InvalidPeerId(String),
}

/// Trust management errors.
#[derive(Debug)]
pub enum TrustError {
    PeerNotFound(String),
    PairingFailed(String),
    PairingExpired,
    DatabaseError(String),
    NotTrusted(String),
    InvalidPairingCode,
}

/// Encryption-related errors.
#[derive(Debug)]
pub enum EncryptionError {
    KeyExchangeFailed(String),
    EncryptionFailed(String),
    DecryptionFailed(String),
    SessionNotFound(String),
    SessionExpired(String),
    AuthenticationFailed,
    KeyRotationFailed(String),
}

/// Security policy errors.
#[derive(Debug)]
pub enum PolicyError {
    PrivateModeBlocked,
    LocalOnlyBlocked,
    NotInAllowlist,
    AccessDenied,
    RateLimitExceeded,
    SuspiciousActivity(String),
}

/// Authentication errors.
#[derive(Debug)]
pub enum AuthenticationError {
    Failed(String),
    InvalidSignature,
    VerificationFailed,
    MitmDetected,
}

} // verus!

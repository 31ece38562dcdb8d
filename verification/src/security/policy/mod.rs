//! Security policies: rate limiting, attack detection, network and private modes, auditing.

pub mod attack_detector;
pub mod audit;
pub mod engine;
pub mod network_policy;
pub mod private_mode;
pub mod rate_limiter;

use vstd::prelude::*;
use crate::security::identity::PeerId;
use crate::security::error::SecurityResult;
use private_mode::InviteCode;
use crate::clock::unix_now_secs;

verus! {

/// Security policy configuration.
#[derive(Clone, Copy, Debug)]
pub struct SecurityPolicy {
    pub private_mode: bool,
    pub local_only_mode: bool,
    pub require_pairing: bool,
    pub auto_accept_trusted: bool,
    /// Session timeout, in seconds.
    pub session_timeout: u64,
    /// Key rotation interval, in seconds.
    pub key_rotation_interval: u64,
}

/// The default policy: pairing required, trusted peers accepted, one-hour
/// sessions and five-minute key rotation.
pub open spec fn default_security_policy() -> SecurityPolicy {
    SecurityPolicy {
        private_mode: false,
        local_only_mode: false,
        require_pairing: true,
        auto_accept_trusted: true,
        session_timeout: 3600,
        key_rotation_interval: 300,
    }
}

impl SecurityPolicy {
    /// The default policy: pairing required, trusted peers accepted, one-hour
    /// sessions and five-minute key rotation.
    pub fn default_policy() -> (r: Self)
        ensures
            r == default_security_policy(),
    {
        Self {
            private_mode: false,
            local_only_mode: false,
            require_pairing: true,
            auto_accept_trusted: true,
            session_timeout: 3600,
            key_rotation_interval: 300,
        }
    }
}

impl Default for SecurityPolicy {
    fn default() -> (r: Self)
        ensures
            r == default_security_policy(),
    {
        Self::default_policy()
    }
}

/// Connection type for policy enforcement.
#[derive(Clone, Copy, Debug, PartialEq, Eq, Structural)]
pub enum ConnectionType {
    LocalNetwork,
    Relay,
    Direct,
}

/// Types of security events.
#[derive(Clone, Copy, Debug, PartialEq, Eq, Structural)]
pub enum SecurityEventType {
    ConnectionAttempt,
    ConnectionAccepted,
    ConnectionRejected,
    PairingAttempt,
    PairingSuccess,
    PairingFailure,
    RateLimitExceeded,
    SuspiciousActivity,
    PolicyViolation,
}

/// Security event for audit logging.
#[derive(Debug)]
pub struct SecurityEvent {
    pub timestamp: u64,
    pub event_type: SecurityEventType,
    pub peer_id: Option<PeerId>,
    pub details: String,
}

impl Clone for SecurityEvent {
    fn clone(&self) -> (r: Self)
        ensures
            r == *self,
    {
        Self {
            timestamp: self.timestamp,
            event_type: self.event_type,
            peer_id: self.peer_id,
            details: self.details.clone(),
        }
    }
}

impl SecurityEvent {
    /// A new event stamped with the time `now`.
    pub fn new_at(event_type: SecurityEventType, peer_id: Option<PeerId>, details: String, now: u64) -> (r: Self)
        ensures
            r == (SecurityEvent { timestamp: now, event_type, peer_id, details }),
    {
        Self { timestamp: now, event_type, peer_id, details }
    }

    /// A new event stamped with the current time.
    pub fn new(event_type: SecurityEventType, peer_id: Option<PeerId>, details: String) -> (r: Self)
        ensures
            r.event_type == event_type,
            r.peer_id == peer_id,
            r.details@ == details@,
    {
        let timestamp = unix_now_secs();
        Self { timestamp, event_type, peer_id, details }
    }
}

/// Security policy engine: decides on connections and holds the policy.
pub trait PolicyEngine {
    /// Whether a connection from `peer_id` by `connection_type` is allowed.
    fn is_connection_allowed(&mut self, peer_id: &PeerId, connection_type: ConnectionType) -> SecurityResult<bool>;

    /// The current security policy.
    fn get_policy(&self) -> SecurityResult<SecurityPolicy>;

    /// Replace the security policy.
    fn update_policy(&mut self, policy: SecurityPolicy) -> SecurityResult<()>;

    /// Record a security event.
    fn log_event(&mut self, event: SecurityEvent) -> SecurityResult<()>;

    /// Record a connection attempt of a peer and check its rate limit.
    fn check_rate_limit(&mut self, peer_id: &PeerId) -> SecurityResult<bool>;

    /// Switch private mode on.
    fn enable_private_mode(&mut self) -> SecurityResult<()>;

    /// Switch private mode off.
    fn disable_private_mode(&mut self) -> SecurityResult<()>;

    /// Make an invite code for private mode.
    fn generate_invite_code(&mut self, peer_id: PeerId) -> SecurityResult<InviteCode>;

    /// The peer an invite code belongs to, if it is valid.
    fn validate_invite_code(&mut self, code: &str) -> SecurityResult<Option<PeerId>>;

    /// Switch local-only mode on.
    fn enable_local_only_mode(&mut self) -> SecurityResult<()>;

    /// Switch local-only mode off.
    fn disable_local_only_mode(&mut self) -> SecurityResult<()>;

    /// The most recent events, newest first.
    fn get_audit_log(&self, limit: usize) -> SecurityResult<Vec<SecurityEvent>>;
}

} // verus!

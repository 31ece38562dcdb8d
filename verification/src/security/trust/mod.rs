//! Trust between peers: trust levels, per-service permissions, pairing codes,
//! the discovery allowlist and the pairing service.

pub mod allowlist;
pub mod pairing;

use vstd::prelude::*;
use crate::clock::unix_now_secs;
use crate::security::error::SecurityResult;
use crate::security::identity::PeerId;

verus! {

/// Trust level for a peer.
#[derive(Clone, Copy, Debug, PartialEq, Eq, Structural)]
pub enum TrustLevel {
    /// Pairing code verified.
    Verified,
    /// Manually trusted by user.
    Trusted,
    /// In allowlist but not verified.
    Allowlisted,
}

/// The name a trust level is stored under.
pub open spec fn trust_level_name(t: TrustLevel) -> Seq<char> {
    match t {
        TrustLevel::Verified => "Verified"@,
        TrustLevel::Trusted => "Trusted"@,
        TrustLevel::Allowlisted => "Allowlisted"@,
    }
}

/// The trust level a stored name denotes; an unknown name counts as allowlisted.
pub open spec fn trust_level_of_name(s: Seq<char>) -> TrustLevel {
    if s == "Verified"@ {
        TrustLevel::Verified
    } else if s == "Trusted"@ {
        TrustLevel::Trusted
    } else {
        TrustLevel::Allowlisted
    }
}

impl TrustLevel {
    /// The name the trust level is stored under.
    pub fn as_db_str(&self) -> (r: &'static str)
        ensures
            r@ == trust_level_name(*self),
    {
        match self {
            TrustLevel::Verified => "Verified",
            TrustLevel::Trusted => "Trusted",
            TrustLevel::Allowlisted => "Allowlisted",
        }
    }

    /// The trust level a stored name denotes; an unknown name counts as allowlisted.
    pub fn from_db_str(s: &str) -> (r: TrustLevel)
        ensures
            r == trust_level_of_name(s@),
    {
        let t = String::from_str(s);
        if t == String::from_str("Verified") {
            TrustLevel::Verified
        } else if t == String::from_str("Trusted") {
            TrustLevel::Trusted
        } else {
            TrustLevel::Allowlisted
        }
    }
}

/// A stored trust level reads back as itself.
pub proof fn lemma_trust_level_name_roundtrip(t: TrustLevel)
    ensures
        trust_level_of_name(trust_level_name(t)) == t,
{
    reveal_strlit("Verified");
    reveal_strlit("Trusted");
    reveal_strlit("Allowlisted");
    assert("Trusted"@ != "Verified"@) by {
        assert("Trusted"@.len() != "Verified"@.len());
    }
    assert("Allowlisted"@ != "Verified"@) by {
        assert("Allowlisted"@.len() != "Verified"@.len());
    }
    assert("Allowlisted"@ != "Trusted"@) by {
        assert("Allowlisted"@.len() != "Trusted"@.len());
    }
}

/// Service permissions for a peer.
#[derive(Clone, Copy, Debug, PartialEq, Eq, Structural)]
pub struct ServicePermissions {
    pub clipboard: bool,
    pub file_transfer: bool,
    pub camera: bool,
    pub commands: bool,
}

/// The permissions a peer gets by default: clipboard and file transfer only.
pub open spec fn default_permissions() -> ServicePermissions {
    ServicePermissions { clipboard: true, file_transfer: true, camera: false, commands: false }
}

impl ServicePermissions {
    /// Clipboard and file transfer allowed; camera and commands not.
    pub fn default_permissions() -> (r: Self)
        ensures
            r == default_permissions(),
    {
        Self { clipboard: true, file_transfer: true, camera: false, commands: false }
    }
}

impl Default for ServicePermissions {
    fn default() -> (r: Self)
        ensures
            r == default_permissions(),
    {
        Self::default_permissions()
    }
}

/// Trust entry for a peer.
#[derive(Debug)]
pub struct TrustEntry {
    pub peer_id: PeerId,
    pub nickname: String,
    /// First contact, in seconds since the epoch.
    pub first_seen: u64,
    /// Last contact, in seconds since the epoch.
    pub last_seen: u64,
    pub trust_level: TrustLevel,
    pub permissions: ServicePermissions,
}

impl Clone for TrustEntry {
    fn clone(&self) -> (r: Self)
        ensures
            r == *self,
    {
        Self {
            peer_id: self.peer_id,
            nickname: self.nickname.clone(),
            first_seen: self.first_seen,
            last_seen: self.last_seen,
            trust_level: self.trust_level,
            permissions: self.permissions,
        }
    }
}

impl TrustEntry {
    /// An entry first and last seen at `now`, with the default permissions.
    pub fn new_at(peer_id: PeerId, nickname: String, trust_level: TrustLevel, now: u64) -> (r: Self)
        ensures
            r == (TrustEntry {
                peer_id,
                nickname,
                first_seen: now,
                last_seen: now,
                trust_level,
                permissions: default_permissions(),
            }),
    {
        Self {
            peer_id,
            nickname,
            first_seen: now,
            last_seen: now,
            trust_level,
            permissions: ServicePermissions::default_permissions(),
        }
    }

    /// An entry first and last seen now, with the default permissions.
    pub fn new(peer_id: PeerId, nickname: String, trust_level: TrustLevel) -> (r: Self)
        ensures
            r.peer_id == peer_id,
            r.nickname == nickname,
            r.first_seen == r.last_seen,
            r.trust_level == trust_level,
            r.permissions == default_permissions(),
    {
        let now = unix_now_secs();
        Self::new_at(peer_id, nickname, trust_level, now)
    }
}

/// Whether something made at `created` is past a timeout of `timeout_secs` at `now`
/// (a clock that reads earlier than `created` counts as no time passed).
pub open spec fn past_timeout(created: u64, timeout_secs: u64, now: u64) -> bool {
    now >= created && now - created > timeout_secs
}

/// Pairing code for verification.
#[derive(Debug, PartialEq, Eq)]
pub struct PairingCode {
    code: String,
    created_at: u64,
}

impl Clone for PairingCode {
    fn clone(&self) -> (r: Self)
        ensures
            r == *self,
    {
        Self { code: self.code.clone(), created_at: self.created_at }
    }
}

impl PairingCode {
    /// The code text.
    pub closed spec fn code_view(&self) -> Seq<char> {
        self.code@
    }

    /// When the code was made (seconds since the epoch).
    pub closed spec fn created_view(&self) -> u64 {
        self.created_at
    }

    /// Whether the code is past `timeout_secs` at `now`.
    pub open spec fn expired_at(&self, timeout_secs: u64, now: u64) -> bool {
        past_timeout(self.created_view(), timeout_secs, now)
    }

    /// A pairing code made at `now`.
    pub fn new_at(code: String, now: u64) -> (r: Self)
        ensures
            r.code_view() == code@,
            r.created_view() == now,
    {
        Self { code, created_at: now }
    }

    /// A pairing code made now.
    pub fn new(code: String) -> (r: Self)
        ensures
            r.code_view() == code@,
    {
        let now = unix_now_secs();
        Self::new_at(code, now)
    }

    /// The code text.
    pub fn code(&self) -> (r: &str)
        ensures
            r@ == self.code_view(),
    {
        self.code.as_str()
    }

    /// When the code was made (seconds since the epoch).
    pub fn created_at(&self) -> (r: u64)
        ensures
            r == self.created_view(),
    {
        self.created_at
    }

    /// Whether more than `timeout_secs` have passed since the code was made, seen at `now`.
    pub fn is_expired_at(&self, timeout_secs: u64, now: u64) -> (r: bool)
        ensures
            r == self.expired_at(timeout_secs, now),
    {
        now >= self.created_at && now - self.created_at > timeout_secs
    }

    /// Whether more than `timeout_secs` have passed since the code was made.
    pub fn is_expired(&self, timeout_secs: u64) -> (r: bool)
        ensures
            exists|now: u64| r == #[trigger] self.expired_at(timeout_secs, now),
    {
        let now = unix_now_secs();
        self.is_expired_at(timeout_secs, now)
    }
}

/// Management of peer trust relationships, for stores that keep trust entries.
pub trait TrustManager {
    /// Add a trusted peer.
    fn add_trusted_peer(&mut self, peer_id: PeerId, nickname: String) -> SecurityResult<()>;

    /// Remove a trusted peer.
    fn remove_trusted_peer(&mut self, peer_id: &PeerId) -> SecurityResult<()>;

    /// Whether a peer is trusted.
    fn is_trusted(&self, peer_id: &PeerId) -> SecurityResult<bool>;

    /// Make a pairing code.
    fn generate_pairing_code(&mut self) -> SecurityResult<PairingCode>;

    /// Check a pairing code presented by a peer.
    fn verify_pairing_code(&mut self, code: &PairingCode, peer_id: &PeerId) -> SecurityResult<bool>;

    /// The peers allowed to discover this device.
    fn get_allowlist(&self) -> SecurityResult<Vec<PeerId>>;

    /// The trust entry of a peer, if any.
    fn get_trust_entry(&self, peer_id: &PeerId) -> SecurityResult<Option<TrustEntry>>;

    /// All trust entries.
    fn get_all_trusted_peers(&self) -> SecurityResult<Vec<TrustEntry>>;

    /// Replace the permissions of a peer.
    fn update_permissions(&mut self, peer_id: &PeerId, permissions: ServicePermissions) -> SecurityResult<()>;

    /// Replace the trust level of a peer.
    fn update_trust_level(&mut self, peer_id: &PeerId, trust_level: TrustLevel) -> SecurityResult<()>;
}

} // verus!

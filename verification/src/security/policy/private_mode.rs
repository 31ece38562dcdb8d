//! Private mode: only invited or allowlisted peers may discover and connect.

use vstd::prelude::*;
use vstd::string::*;
use crate::clock::unix_now_secs;
use crate::random::random_below;
use crate::security::error::{SecurityError, SecurityResult, PolicyError};
use crate::security::identity::PeerId;
use crate::security::peer_map::{PeerMap, TextMap};
use crate::text::string_push;

verus! {

/// The characters invite codes are made of (no ambiguous characters).
pub open spec fn invite_alphabet() -> Seq<char> {
    seq![
        'A', 'B', 'C', 'D', 'E', 'F', 'G', 'H', 'J', 'K', 'L', 'M', 'N', 'P', 'Q', 'R',
        'S', 'T', 'U', 'V', 'W', 'X', 'Y', 'Z', '2', '3', '4', '5', '6', '7', '8', '9',
    ]
}

/// Whether `s` has the shape of an invite code: eight characters of the alphabet.
pub open spec fn is_invite_code(s: Seq<char>) -> bool {
    s.len() == 8 && forall|i: int| 0 <= i < 8 ==> invite_alphabet().contains(#[trigger] s[i])
}

/// The `i`-th character of the invite alphabet.
fn invite_char(i: u32) -> (c: char)
    requires
        i < 32,
    ensures
        c == invite_alphabet()[i as int],
{
    let cs: [char; 32] = [
        'A', 'B', 'C', 'D', 'E', 'F', 'G', 'H', 'J', 'K', 'L', 'M', 'N', 'P', 'Q', 'R',
        'S', 'T', 'U', 'V', 'W', 'X', 'Y', 'Z', '2', '3', '4', '5', '6', '7', '8', '9',
    ];
    assert(cs@ =~= invite_alphabet());
    cs[i as usize]
}

/// A random 8-character invite code.
fn generate_code() -> (s: String)
    ensures
        is_invite_code(s@),
{
    let mut s = String::new();
    let mut i: usize = 0;
    while i < 8
        invariant
            i <= 8,
            s@.len() == i,
            forall|j: int| 0 <= j < i ==> invite_alphabet().contains(#[trigger] s@[j]),
        decreases 8 - i,
    {
        let idx = random_below(32);
        let c = invite_char(idx);
        let ghost prev = s@;
        string_push(&mut s, c);
        proof {
            assert(invite_alphabet()[idx as int] == c);
            assert forall|j: int| 0 <= j < i + 1 implies invite_alphabet().contains(#[trigger] s@[j]) by {
                if j < i {
                    assert(s@[j] == prev[j]);
                } else {
                    assert(s@[j] == c);
                }
            }
        }
        i = i + 1;
    }
    s
}

/// Invite code for private mode connections.
#[derive(Debug)]
pub struct InviteCode {
    code: String,
    peer_id: PeerId,
    created_at: u64,
    expires_at: u64,
}

impl Clone for InviteCode {
    fn clone(&self) -> (r: Self)
        ensures
            r == *self,
    {
        Self { code: self.code.clone(), peer_id: self.peer_id, created_at: self.created_at, expires_at: self.expires_at }
    }
}

impl InviteCode {
    /// The code text.
    pub closed spec fn code_view(&self) -> Seq<char> {
        self.code@
    }

    /// The peer the code was made for.
    pub closed spec fn peer_view(&self) -> PeerId {
        self.peer_id
    }

    /// When the code was made (seconds since the epoch).
    pub closed spec fn created_view(&self) -> u64 {
        self.created_at
    }

    /// When the code expires (seconds since the epoch).
    pub closed spec fn expires_view(&self) -> u64 {
        self.expires_at
    }

    /// Seconds left before expiry at `now`, if any.
    pub open spec fn remaining_at(&self, now: u64) -> Option<u64> {
        if now < self.expires_view() {
            Some((self.expires_view() - now) as u64)
        } else {
            None
        }
    }

    /// Whether the code has expired at `now`.
    pub open spec fn expired_at(&self, now: u64) -> bool {
        now > self.expires_view()
    }

    /// A new random invite code for `peer_id`, valid for `validity_duration_secs` from `now`.
    pub fn new_at(peer_id: PeerId, validity_duration_secs: u64, now: u64) -> (r: Self)
        ensures
            is_invite_code(r.code_view()),
            r.peer_view() == peer_id,
            r.created_view() == now,
            r.expires_view() == (if now + validity_duration_secs > u64::MAX { u64::MAX as int } else {
                now + validity_duration_secs
            }),
    {
        let code = generate_code();
        Self { code, peer_id, created_at: now, expires_at: now.saturating_add(validity_duration_secs) }
    }

    /// A new random invite code for `peer_id`, valid for `validity_duration_secs` from now.
    pub fn new(peer_id: PeerId, validity_duration_secs: u64) -> (r: Self)
        ensures
            is_invite_code(r.code_view()),
            r.peer_view() == peer_id,
            r.expires_view() == (if r.created_view() + validity_duration_secs > u64::MAX { u64::MAX as int } else {
                r.created_view() + validity_duration_secs
            }),
    {
        let now = unix_now_secs();
        Self::new_at(peer_id, validity_duration_secs, now)
    }

    /// The code string.
    pub fn code(&self) -> (r: &str)
        ensures
            r@ == self.code_view(),
    {
        self.code.as_str()
    }

    /// The peer ID this code is for.
    pub fn peer_id(&self) -> (r: &PeerId)
        ensures
            *r == self.peer_view(),
    {
        &self.peer_id
    }

    /// Whether the code has expired at `now`.
    pub fn is_expired_at(&self, now: u64) -> (r: bool)
        ensures
            r == self.expired_at(now),
    {
        now > self.expires_at
    }

    /// Whether the code has expired.
    pub fn is_expired(&self) -> (r: bool)
        ensures
            exists|now: u64| r == #[trigger] self.expired_at(now),
    {
        let now = unix_now_secs();
        self.is_expired_at(now)
    }

    /// Seconds left before expiry, seen at `now`, if any.
    pub fn time_until_expiration_at(&self, now: u64) -> (r: Option<u64>)
        ensures
            r == self.remaining_at(now),
    {
        if now < self.expires_at {
            Some(self.expires_at - now)
        } else {
            None
        }
    }

    /// Seconds left before expiry, if any.
    pub fn time_until_expiration(&self) -> (r: Option<u64>)
        ensures
            exists|now: u64| r == #[trigger] self.remaining_at(now),
    {
        let now = unix_now_secs();
        self.time_until_expiration_at(now)
    }
}

/// Whether the error is the private-mode error.
pub open spec fn is_private_mode_error(e: SecurityError) -> bool {
    e matches SecurityError::Policy(PolicyError::PrivateModeBlocked)
}

/// Invite codes that are still valid at `now`.
pub open spec fn live_codes(m: Map<Seq<char>, InviteCode>, now: u64) -> Map<Seq<char>, InviteCode> {
    Map::new(|k: Seq<char>| m.dom().contains(k) && !m[k].expired_at(now), |k: Seq<char>| m[k])
}

/// Whether `r` lists each invite code valid at `now` (and only those).
pub open spec fn lists_live_codes(m: Map<Seq<char>, InviteCode>, r: Seq<InviteCode>, now: u64) -> bool {
    &&& forall|i: int| 0 <= i < r.len() ==> #[trigger] live_codes(m, now).contains_value(r[i])
    &&& forall|k: Seq<char>| #[trigger] live_codes(m, now).dom().contains(k) ==> r.contains(live_codes(m, now)[k])
}

/// Invite codes with the expired ones among `done` dropped.
spec fn partially_live(m: Map<Seq<char>, InviteCode>, now: u64, done: Set<Seq<char>>) -> Map<Seq<char>, InviteCode> {
    Map::new(|k: Seq<char>| m.dom().contains(k) && (!done.contains(k) || !m[k].expired_at(now)), |k: Seq<char>| m[k])
}

/// Private mode controller for managing discovery visibility.
pub struct PrivateModeController {
    enabled: bool,
    invite_codes: TextMap<InviteCode>,
    allowed_peers: PeerMap<()>,
}

impl PrivateModeController {
    /// Whether private mode is on.
    pub closed spec fn enabled_view(&self) -> bool {
        self.enabled
    }

    /// Active invite codes by code text.
    pub closed spec fn codes_view(&self) -> Map<Seq<char>, InviteCode> {
        self.invite_codes@
    }

    /// Fingerprints of the peers allowed in private mode.
    pub closed spec fn allowed_view(&self) -> Set<Seq<u8>> {
        self.allowed_peers@.dom()
    }

    /// A controller with private mode off, no codes and no allowed peers.
    pub fn new() -> (r: Self)
        ensures
            !r.enabled_view(),
            r.codes_view() == Map::<Seq<char>, InviteCode>::empty(),
            r.allowed_view() == Set::<Seq<u8>>::empty(),
    {
        Self { enabled: false, invite_codes: TextMap::new(), allowed_peers: PeerMap::new() }
    }

    /// Enable private mode.
    pub fn enable(&mut self) -> (r: SecurityResult<()>)
        ensures
            r is Ok,
            final(self).enabled_view(),
            final(self).codes_view() == old(self).codes_view(),
            final(self).allowed_view() == old(self).allowed_view(),
    {
        self.enabled = true;
        Ok(())
    }

    /// Disable private mode.
    pub fn disable(&mut self) -> (r: SecurityResult<()>)
        ensures
            r is Ok,
            !final(self).enabled_view(),
            final(self).codes_view() == old(self).codes_view(),
            final(self).allowed_view() == old(self).allowed_view(),
    {
        self.enabled = false;
        Ok(())
    }

    /// Whether private mode is enabled.
    pub fn is_enabled(&self) -> (r: bool)
        ensures
            r == self.enabled_view(),
    {
        self.enabled
    }

    /// Make an invite code for `peer_id`, valid for `validity_duration_secs`;
    /// the peer is added to the allowed peers.
    pub fn generate_invite_code(&mut self, peer_id: PeerId, validity_duration_secs: u64) -> (r: SecurityResult<InviteCode>)
        ensures
            r matches Ok(inv) && {
                &&& is_invite_code(inv.code_view())
                &&& inv.peer_view() == peer_id
                &&& inv.expires_view() == (if inv.created_view() + validity_duration_secs > u64::MAX {
                    u64::MAX as int
                } else {
                    inv.created_view() + validity_duration_secs
                })
                &&& final(self).codes_view() == old(self).codes_view().insert(inv.code_view(), inv)
            },
            final(self).enabled_view() == old(self).enabled_view(),
            final(self).allowed_view() == old(self).allowed_view().insert(peer_id@),
    {
        let invite = InviteCode::new(peer_id, validity_duration_secs);
        let key = invite.code.clone();
        self.invite_codes.insert(key, invite.clone());
        self.allowed_peers.insert(peer_id, ());
        Ok(invite)
    }

    /// The peer an invite code belongs to, if the code is known and not expired
    /// at `now`; an expired code is removed.
    pub fn validate_invite_code_at(&mut self, code: &str, now: u64) -> (r: SecurityResult<Option<PeerId>>)
        ensures
            final(self).enabled_view() == old(self).enabled_view(),
            final(self).allowed_view() == old(self).allowed_view(),
            match r {
                Ok(Some(p)) => old(self).codes_view().dom().contains(code@)
                    && !old(self).codes_view()[code@].expired_at(now)
                    && p == old(self).codes_view()[code@].peer_view()
                    && final(self).codes_view() == old(self).codes_view(),
                Ok(None) => !old(self).codes_view().dom().contains(code@) && final(self).codes_view() == old(self).codes_view()
                    || old(self).codes_view().dom().contains(code@) && old(self).codes_view()[code@].expired_at(now)
                    && final(self).codes_view() == old(self).codes_view().remove(code@),
                Err(_) => false,
            },
    {
        let key = String::from_str(code);
        let (expired, peer) = match self.invite_codes.get(&key) {
            Some(invite) => (invite.is_expired_at(now), Some(invite.peer_id)),
            None => (false, None),
        };
        match peer {
            Some(p) => {
                if expired {
                    self.invite_codes.remove(&key);
                    Ok(None)
                } else {
                    Ok(Some(p))
                }
            },
            None => Ok(None),
        }
    }

    /// The peer an invite code belongs to, if the code is known and not
    /// expired now; an expired code is removed.
    pub fn validate_invite_code(&mut self, code: &str) -> (r: SecurityResult<Option<PeerId>>)
        ensures
            final(self).enabled_view() == old(self).enabled_view(),
            final(self).allowed_view() == old(self).allowed_view(),
            r is Ok,
            !old(self).codes_view().dom().contains(code@) ==> r == Ok::<Option<PeerId>, SecurityError>(None)
                && final(self).codes_view() == old(self).codes_view(),
            r matches Ok(Some(p)) ==> old(self).codes_view().dom().contains(code@)
                && p == old(self).codes_view()[code@].peer_view()
                && final(self).codes_view() == old(self).codes_view(),
            exists|now: u64| r matches Ok(Some(p)) ==> !(#[trigger] old(self).codes_view()[code@].expired_at(now)),
    {
        let now = unix_now_secs();
        self.validate_invite_code_at(code, now)
    }

    /// Add a peer to the allowed list.
    pub fn add_allowed_peer(&mut self, peer_id: PeerId) -> (r: SecurityResult<()>)
        ensures
            r is Ok,
            final(self).enabled_view() == old(self).enabled_view(),
            final(self).codes_view() == old(self).codes_view(),
            final(self).allowed_view() == old(self).allowed_view().insert(peer_id@),
    {
        self.allowed_peers.insert(peer_id, ());
        Ok(())
    }

    /// Remove a peer from the allowed list.
    pub fn remove_allowed_peer(&mut self, peer_id: &PeerId) -> (r: SecurityResult<()>)
        ensures
            r is Ok,
            final(self).enabled_view() == old(self).enabled_view(),
            final(self).codes_view() == old(self).codes_view(),
            final(self).allowed_view() == old(self).allowed_view().remove(peer_id@),
    {
        self.allowed_peers.remove(peer_id);
        Ok(())
    }

    /// Whether a peer is allowed in private mode.
    pub fn is_peer_allowed(&self, peer_id: &PeerId) -> (r: bool)
        ensures
            r == self.allowed_view().contains(peer_id@),
    {
        self.allowed_peers.contains_key(peer_id)
    }

    /// All allowed peers, each once.
    pub fn get_allowed_peers(&self) -> (r: Vec<PeerId>)
        ensures
            forall|i: int| 0 <= i < r@.len() ==> self.allowed_view().contains(#[trigger] r@[i]@),
            forall|k: Seq<u8>| #[trigger] self.allowed_view().contains(k) ==> exists|i: int| 0 <= i < r@.len() && r@[i]@ == k,
            forall|i: int, j: int| 0 <= i < j < r@.len() ==> #[trigger] r@[i]@ != #[trigger] r@[j]@,
    {
        self.allowed_peers.peer_keys()
    }

    /// Whether discovery by a peer is allowed: always outside private mode,
    /// otherwise only for allowed peers.
    pub fn should_allow_discovery(&self, peer_id: &PeerId) -> (r: SecurityResult<bool>)
        ensures
            r matches Ok(b) && b == (!self.enabled_view() || self.allowed_view().contains(peer_id@)),
    {
        if !self.is_enabled() {
            return Ok(true);
        }
        Ok(self.is_peer_allowed(peer_id))
    }

    /// Whether a connection from a peer is allowed: always outside private
    /// mode, otherwise only for allowed peers (others get the private-mode error).
    pub fn should_allow_connection(&self, peer_id: &PeerId) -> (r: SecurityResult<bool>)
        ensures
            match r {
                Ok(b) => b && (!self.enabled_view() || self.allowed_view().contains(peer_id@)),
                Err(e) => self.enabled_view() && !self.allowed_view().contains(peer_id@) && is_private_mode_error(e),
            },
    {
        if !self.is_enabled() {
            return Ok(true);
        }
        if !self.is_peer_allowed(peer_id) {
            return Err(SecurityError::Policy(PolicyError::PrivateModeBlocked));
        }
        Ok(true)
    }

    /// Drop the invite codes that have expired at `now`.
    pub fn cleanup_expired_codes_at(&mut self, now: u64) -> (r: SecurityResult<()>)
        ensures
            r is Ok,
            final(self).enabled_view() == old(self).enabled_view(),
            final(self).allowed_view() == old(self).allowed_view(),
            final(self).codes_view() == live_codes(old(self).codes_view(), now),
    {
        let ghost pre = self.codes_view();
        let ghost mut done: Set<Seq<char>> = Set::empty();
        let keys = self.invite_codes.text_keys();
        let mut i: usize = 0;
        while i < keys.len()
            invariant
                i <= keys@.len(),
                self.enabled_view() == old(self).enabled_view(),
                self.allowed_view() == old(self).allowed_view(),
                pre == old(self).codes_view(),
                forall|k: Seq<char>| #[trigger] pre.dom().contains(k) ==> exists|j: int| 0 <= j < keys@.len() && keys@[j]@ == k,
                forall|j: int| 0 <= j < i ==> done.contains(#[trigger] keys@[j]@),
                self.codes_view() == partially_live(pre, now, done),
            decreases keys@.len() - i,
        {
            let k = &keys[i];
            let expired = match self.invite_codes.get(k) {
                Some(inv) => inv.is_expired_at(now),
                None => false,
            };
            if expired {
                self.invite_codes.remove(k);
            }
            proof {
                done = done.insert(k@);
                assert(self.codes_view() =~= partially_live(pre, now, done));
            }
            i = i + 1;
        }
        proof {
            assert forall|key: Seq<char>| pre.dom().contains(key) implies done.contains(key) by {
                let j = choose|j: int| 0 <= j < keys@.len() && keys@[j]@ == key;
                assert(done.contains(keys@[j]@));
            }
            assert(self.codes_view() =~= live_codes(pre, now));
        }
        Ok(())
    }

    /// Drop the invite codes that have expired.
    pub fn cleanup_expired_codes(&mut self) -> (r: SecurityResult<()>)
        ensures
            r is Ok,
            final(self).enabled_view() == old(self).enabled_view(),
            final(self).allowed_view() == old(self).allowed_view(),
            exists|now: u64| final(self).codes_view() == #[trigger] live_codes(old(self).codes_view(), now),
    {
        let now = unix_now_secs();
        self.cleanup_expired_codes_at(now)
    }

    /// The invite codes still valid at `now`.
    pub fn get_active_invite_codes_at(&self, now: u64) -> (r: Vec<InviteCode>)
        ensures
            lists_live_codes(self.codes_view(), r@, now),
    {
        let keys = self.invite_codes.text_keys();
        let ghost live = live_codes(self.codes_view(), now);
        let ghost mut ks: Seq<Seq<char>> = Seq::empty();
        let mut r: Vec<InviteCode> = Vec::new();
        let mut i: usize = 0;
        while i < keys.len()
            invariant
                i <= keys@.len(),
                live == live_codes(self.codes_view(), now),
                forall|j: int| 0 <= j < keys@.len() ==> self.codes_view().dom().contains(#[trigger] keys@[j]@),
                forall|k: Seq<char>| #[trigger] self.codes_view().dom().contains(k) ==> exists|j: int| 0 <= j < keys@.len() && keys@[j]@ == k,
                ks.len() == r@.len(),
                forall|j: int| 0 <= j < r@.len() ==> live.dom().contains(#[trigger] ks[j]) && live[ks[j]] == r@[j],
                forall|a: int| 0 <= a < i && #[trigger] live.dom().contains(keys@[a]@)
                    ==> exists|j: int| 0 <= j < r@.len() && ks[j] == keys@[a]@,
            decreases keys@.len() - i,
        {
            let k = &keys[i];
            match self.invite_codes.get(k) {
                Some(inv) => {
                    if !inv.is_expired_at(now) {
                        let ghost prev = ks;
                        r.push(inv.clone());
                        proof {
                            ks = ks.push(k@);
                            assert forall|a: int| 0 <= a < i + 1 && #[trigger] live.dom().contains(keys@[a]@)
                                implies exists|j: int| 0 <= j < r@.len() && ks[j] == keys@[a]@ by {
                                if a == i {
                                    assert(ks[ks.len() - 1] == keys@[a]@);
                                } else {
                                    let j = choose|j: int| 0 <= j < prev.len() && prev[j] == keys@[a]@;
                                    assert(ks[j] == prev[j]);
                                }
                            }
                        }
                    }
                },
                None => {},
            }
            i = i + 1;
        }
        proof {
            assert forall|j: int| 0 <= j < r@.len() implies #[trigger] live.contains_value(r@[j]) by {
                assert(live.dom().contains(ks[j]) && live[ks[j]] == r@[j]);
            }
            assert forall|k: Seq<char>| #[trigger] live.dom().contains(k) implies r@.contains(live[k]) by {
                let a = choose|a: int| 0 <= a < keys@.len() && keys@[a]@ == k;
                assert(live.dom().contains(keys@[a]@));
                let j = choose|j: int| 0 <= j < r@.len() && ks[j] == keys@[a]@;
                assert(r@[j] == live[k]);
            }
        }
        r
    }

    /// The invite codes still valid now.
    pub fn get_active_invite_codes(&self) -> (r: Vec<InviteCode>)
        ensures
            exists|now: u64| #[trigger] lists_live_codes(self.codes_view(), r@, now),
    {
        let now = unix_now_secs();
        self.get_active_invite_codes_at(now)
    }

    /// Revoke an invite code.
    pub fn revoke_invite_code(&mut self, code: &str) -> (r: SecurityResult<()>)
        ensures
            r is Ok,
            final(self).enabled_view() == old(self).enabled_view(),
            final(self).allowed_view() == old(self).allowed_view(),
            final(self).codes_view() == old(self).codes_view().remove(code@),
    {
        let key = String::from_str(code);
        self.invite_codes.remove(&key);
        Ok(())
    }

    /// Revoke all invite codes.
    pub fn clear_all_invite_codes(&mut self) -> (r: SecurityResult<()>)
        ensures
            r is Ok,
            final(self).enabled_view() == old(self).enabled_view(),
            final(self).allowed_view() == old(self).allowed_view(),
            final(self).codes_view() == Map::<Seq<char>, InviteCode>::empty(),
    {
        self.invite_codes.clear();
        Ok(())
    }

    /// Forget all allowed peers.
    pub fn clear_allowed_peers(&mut self) -> (r: SecurityResult<()>)
        ensures
            r is Ok,
            final(self).enabled_view() == old(self).enabled_view(),
            final(self).codes_view() == old(self).codes_view(),
            final(self).allowed_view() == Set::<Seq<u8>>::empty(),
    {
        self.allowed_peers.clear();
        Ok(())
    }
}

} // verus!

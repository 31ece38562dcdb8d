//! Pairing service: six-digit codes that a peer presents to pair.

use vstd::prelude::*;
use crate::clock::unix_now_secs;
use crate::random::random_below;
use crate::security::constant_time::ConstantTime;
use crate::security::error::{SecurityError, SecurityResult, AuthenticationError};
use crate::security::identity::PeerId;
use crate::security::peer_map::TextMap;
use crate::text::string_push;
use super::PairingCode;

verus! {

/// The decimal digit character of `d` (below ten).
pub open spec fn digit(d: int) -> char {
    (d + 48) as char
}

/// `n` written with exactly six decimal digits, zero-padded on the left.
pub open spec fn six_digits(n: u32) -> Seq<char> {
    seq![
        digit((n / 100000) as int % 10),
        digit((n / 10000) as int % 10),
        digit((n / 1000) as int % 10),
        digit((n / 100) as int % 10),
        digit((n / 10) as int % 10),
        digit(n as int % 10),
    ]
}

/// Whether `s` is made of six ASCII decimal digits.
pub open spec fn is_six_digit_code(s: Seq<char>) -> bool {
    s.len() == 6 && forall|i: int| 0 <= i < 6 ==> '0' <= #[trigger] s[i] <= '9'
}

/// The digit character of `d`.
fn digit_char(d: u32) -> (c: char)
    requires
        d < 10,
    ensures
        c == digit(d as int),
{
    ((d as u8) + 48u8) as char
}

/// `n` written with six digits, zero-padded, as `format!("{:06}", n)` does.
pub fn format_pairing_code(n: u32) -> (r: String)
    requires
        n < 1_000_000,
    ensures
        r@ == six_digits(n),
        is_six_digit_code(r@),
{
    let mut s = String::new();
    string_push(&mut s, digit_char((n / 100000) % 10));
    string_push(&mut s, digit_char((n / 10000) % 10));
    string_push(&mut s, digit_char((n / 1000) % 10));
    string_push(&mut s, digit_char((n / 100) % 10));
    string_push(&mut s, digit_char((n / 10) % 10));
    string_push(&mut s, digit_char(n % 10));
    proof {
        assert(s@ =~= six_digits(n));
    }
    s
}

/// A pairing session: the code handed out and the peer that first presented it.
#[derive(Debug)]
pub struct PairingSession {
    pub code: PairingCode,
    pub peer_id: Option<PeerId>,
}

/// What checking the pairing code `code` presented by `peer` at `now` does,
/// with sessions `m` and timeout `t` before and `m2` after, answering `r`.
///
/// An expired code, or one without a session, is refused (an expired
/// session is closed). A session's first peer is recorded; the same peer may
/// present the code again, another peer gets an error.
pub open spec fn verify_step(
    m: Map<Seq<char>, PairingSession>,
    t: u64,
    code: PairingCode,
    peer: PeerId,
    now: u64,
    m2: Map<Seq<char>, PairingSession>,
    r: SecurityResult<bool>,
) -> bool {
    let key = code.code_view();
    if code.expired_at(t, now) || !m.dom().contains(key) {
        r == Ok::<bool, SecurityError>(false) && m2 == m
    } else if m[key].code.expired_at(t, now) {
        r == Ok::<bool, SecurityError>(false) && m2 == m.remove(key)
    } else if m[key].code.code_view() != key {
        r == Ok::<bool, SecurityError>(false) && m2 == m
    } else {
        match m[key].peer_id {
            Some(q) => m2 == m && if q@ == peer@ {
                r == Ok::<bool, SecurityError>(true)
            } else {
                r matches Err(SecurityError::Authentication(AuthenticationError::Failed(_)))
            },
            None => r == Ok::<bool, SecurityError>(true) && m2 == m.insert(
                key,
                PairingSession { code: m[key].code, peer_id: Some(peer) },
            ),
        }
    }
}

/// Service for managing pairing codes and verification.
pub struct PairingService {
    sessions: TextMap<PairingSession>,
    timeout_secs: u64,
}

impl PairingService {
    /// Open sessions by code text.
    pub closed spec fn sessions_view(&self) -> Map<Seq<char>, PairingSession> {
        self.sessions@
    }

    /// Seconds after which a code expires.
    pub closed spec fn timeout_view(&self) -> u64 {
        self.timeout_secs
    }

    /// A service with no sessions and a 60-second timeout.
    pub fn new() -> (r: Self)
        ensures
            r.sessions_view() == Map::<Seq<char>, PairingSession>::empty(),
            r.timeout_view() == 60,
    {
        Self::with_timeout(60)
    }

    /// A service with no sessions and the given timeout.
    pub fn with_timeout(timeout_secs: u64) -> (r: Self)
        ensures
            r.sessions_view() == Map::<Seq<char>, PairingSession>::empty(),
            r.timeout_view() == timeout_secs,
    {
        Self { sessions: TextMap::new(), timeout_secs }
    }

    /// Open a session for the code `format_pairing_code(n)` made at `now`.
    pub fn open_session_at(&mut self, n: u32, now: u64) -> (r: SecurityResult<PairingCode>)
        requires
            n < 1_000_000,
        ensures
            r matches Ok(pc) && {
                &&& pc.code_view() == six_digits(n)
                &&& pc.created_view() == now
                &&& final(self).sessions_view() == old(self).sessions_view().insert(
                    pc.code_view(),
                    PairingSession { code: pc, peer_id: None },
                )
            },
            final(self).timeout_view() == old(self).timeout_view(),
    {
        let code = format_pairing_code(n);
        let pairing_code = PairingCode::new_at(code.clone(), now);
        self.sessions.insert(code, PairingSession { code: pairing_code.clone(), peer_id: None });
        Ok(pairing_code)
    }

    /// Make a random six-digit pairing code and open a session for it.
    pub fn generate_pairing_code(&mut self) -> (r: SecurityResult<PairingCode>)
        ensures
            r matches Ok(pc) && {
                &&& is_six_digit_code(pc.code_view())
                &&& final(self).sessions_view() == old(self).sessions_view().insert(
                    pc.code_view(),
                    PairingSession { code: pc, peer_id: None },
                )
            },
            final(self).timeout_view() == old(self).timeout_view(),
    {
        let n = random_below(1_000_000);
        let now = unix_now_secs();
        self.open_session_at(n, now)
    }

    /// Check a pairing code presented by `peer_id` at `now`.
    ///
    /// An expired code, or one without a session, is refused (an expired
    /// session is closed). A session's first peer is recorded; the same
    /// peer may present the code again, another peer gets an error.
    pub fn verify_pairing_code_at(&mut self, code: &PairingCode, peer_id: &PeerId, now: u64) -> (r: SecurityResult<bool>)
        ensures
            final(self).timeout_view() == old(self).timeout_view(),
            verify_step(
                old(self).sessions_view(),
                old(self).timeout_view(),
                *code,
                *peer_id,
                now,
                final(self).sessions_view(),
                r,
            ),
    {
        if code.is_expired_at(self.timeout_secs, now) {
            return Ok(false);
        }
        let key = String::from_str(code.code());
        let found = match self.sessions.get(&key) {
            Some(session) => Some((session.code.clone(), session.peer_id)),
            None => None,
        };
        match found {
            None => Ok(false),
            Some((session_code, existing)) => {
                if session_code.is_expired_at(self.timeout_secs, now) {
                    self.sessions.remove(&key);
                    return Ok(false);
                }
                let presented = code.code().as_bytes();
                let expected = session_code.code().as_bytes();
                proof {
                    vstd::utf8::encode_utf8_decode_utf8(code.code_view());
                    vstd::utf8::encode_utf8_decode_utf8(session_code.code_view());
                }
                if !ConstantTime::compare(presented, expected) {
                    return Ok(false);
                }
                match existing {
                    Some(existing_peer) => {
                        if !ConstantTime::compare_32(existing_peer.fingerprint(), peer_id.fingerprint()) {
                            return Err(SecurityError::Authentication(AuthenticationError::Failed(
                                String::from_str("Pairing code already used with different peer"),
                            )));
                        }
                        Ok(true)
                    },
                    None => {
                        self.sessions.insert(key, PairingSession { code: session_code, peer_id: Some(*peer_id) });
                        Ok(true)
                    },
                }
            },
        }
    }

    /// Check a pairing code presented by `peer_id` now (see `verify_pairing_code_at`).
    pub fn verify_pairing_code(&mut self, code: &PairingCode, peer_id: &PeerId) -> (r: SecurityResult<bool>)
        ensures
            final(self).timeout_view() == old(self).timeout_view(),
            exists|now: u64|
                #[trigger] verify_step(
                    old(self).sessions_view(),
                    old(self).timeout_view(),
                    *code,
                    *peer_id,
                    now,
                    final(self).sessions_view(),
                    r,
                ),
    {
        let now = unix_now_secs();
        self.verify_pairing_code_at(code, peer_id, now)
    }

    /// Close the session of a code.
    pub fn complete_pairing(&mut self, code: &str) -> (r: SecurityResult<()>)
        ensures
            r is Ok,
            final(self).timeout_view() == old(self).timeout_view(),
            final(self).sessions_view() == old(self).sessions_view().remove(code@),
    {
        let key = String::from_str(code);
        self.sessions.remove(&key);
        Ok(())
    }

    /// Close the sessions whose codes have expired at `now`.
    pub fn cleanup_expired_sessions_at(&mut self, now: u64) -> (r: SecurityResult<()>)
        ensures
            r is Ok,
            final(self).timeout_view() == old(self).timeout_view(),
            final(self).sessions_view() == live_sessions(old(self).sessions_view(), old(self).timeout_view(), now),
    {
        let ghost pre = self.sessions_view();
        let ghost mut done: Set<Seq<char>> = Set::empty();
        let t = self.timeout_secs;
        let keys = self.sessions.text_keys();
        let mut i: usize = 0;
        while i < keys.len()
            invariant
                i <= keys@.len(),
                t == self.timeout_secs,
                self.timeout_secs == old(self).timeout_secs,
                pre == old(self).sessions_view(),
                forall|k: Seq<char>| #[trigger] pre.dom().contains(k) ==> exists|j: int| 0 <= j < keys@.len() && keys@[j]@ == k,
                forall|j: int| 0 <= j < i ==> done.contains(#[trigger] keys@[j]@),
                self.sessions_view() == partially_cleaned(pre, t, now, done),
            decreases keys@.len() - i,
        {
            let k = &keys[i];
            let expired = match self.sessions.get(k) {
                Some(s) => s.code.is_expired_at(t, now),
                None => false,
            };
            if expired {
                self.sessions.remove(k);
            }
            proof {
                done = done.insert(k@);
                assert(self.sessions_view() =~= partially_cleaned(pre, t, now, done));
            }
            i = i + 1;
        }
        proof {
            assert forall|key: Seq<char>| pre.dom().contains(key) implies done.contains(key) by {
                let j = choose|j: int| 0 <= j < keys@.len() && keys@[j]@ == key;
                assert(done.contains(keys@[j]@));
            }
            assert(self.sessions_view() =~= live_sessions(pre, t, now));
        }
        Ok(())
    }

    /// Close the sessions whose codes have expired.
    pub fn cleanup_expired_sessions(&mut self) -> (r: SecurityResult<()>)
        ensures
            r is Ok,
            final(self).timeout_view() == old(self).timeout_view(),
            exists|now: u64| final(self).sessions_view() == #[trigger] live_sessions(old(self).sessions_view(), old(self).timeout_view(), now),
    {
        let now = unix_now_secs();
        self.cleanup_expired_sessions_at(now)
    }

    /// The number of open sessions.
    pub fn active_sessions_count(&self) -> (r: usize)
        ensures
            r == self.sessions_view().dom().len(),
    {
        self.sessions.len()
    }

    /// Whether `code` has a session whose code has not expired at `now`.
    pub open spec fn code_valid_at(&self, code: Seq<char>, now: u64) -> bool {
        self.sessions_view().dom().contains(code) && !self.sessions_view()[code].code.expired_at(self.timeout_view(), now)
    }

    /// Whether a code has a session that has not expired at `now`.
    pub fn is_valid_code_at(&self, code: &str, now: u64) -> (r: bool)
        ensures
            r == self.code_valid_at(code@, now),
    {
        let key = String::from_str(code);
        match self.sessions.get(&key) {
            Some(s) => !s.code.is_expired_at(self.timeout_secs, now),
            None => false,
        }
    }

    /// Whether a code has a session that has not expired.
    pub fn is_valid_code(&self, code: &str) -> (r: bool)
        ensures
            r ==> self.sessions_view().dom().contains(code@),
            exists|now: u64| r == #[trigger] self.code_valid_at(code@, now),
    {
        let now = unix_now_secs();
        self.is_valid_code_at(code, now)
    }
}

impl Default for PairingService {
    fn default() -> (r: Self)
        ensures
            r.sessions_view() == Map::<Seq<char>, PairingSession>::empty(),
            r.timeout_view() == 60,
    {
        Self::new()
    }
}

/// The sessions whose codes have not expired at `now`.
pub open spec fn live_sessions(m: Map<Seq<char>, PairingSession>, timeout_secs: u64, now: u64) -> Map<Seq<char>, PairingSession> {
    Map::new(|k: Seq<char>| m.dom().contains(k) && !m[k].code.expired_at(timeout_secs, now), |k: Seq<char>| m[k])
}

/// The sessions with the expired ones among `done` dropped.
spec fn partially_cleaned(m: Map<Seq<char>, PairingSession>, timeout_secs: u64, now: u64, done: Set<Seq<char>>) -> Map<Seq<char>, PairingSession> {
    Map::new(
        |k: Seq<char>| m.dom().contains(k) && (!done.contains(k) || !m[k].code.expired_at(timeout_secs, now)),
        |k: Seq<char>| m[k],
    )
}

} // verus!

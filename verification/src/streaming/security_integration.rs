//! Records of peer trust and stream access.

use vstd::prelude::*;
use std::time::SystemTime;
use crate::security::identity::{PeerId as SecurityPeerId, text_fingerprint};
use crate::security::encryption::SessionId as SecuritySessionId;
use crate::streaming::SessionId;
use crate::streaming::PeerId;
use crate::streaming::types::ViewerPermissions;
use crate::streaming::error::{StreamError, StreamResult};
use crate::security::peer_map::TextMap;
use crate::text::{append_str, append_string};

verus! {

/// Trust information for a peer.
#[derive(Debug)]
pub struct PeerTrustInfo {
    pub peer_id: PeerId,
    pub security_peer_id: SecurityPeerId,
    pub is_trusted: bool,
    pub nickname: Option<String>,
    pub verified_at: SystemTime,
}

impl Clone for PeerTrustInfo {
    fn clone(&self) -> (r: Self)
        ensures
            r == *self,
    {
        let nickname = match &self.nickname {
            Some(n) => Some(n.clone()),
            None => None,
        };
        Self {
            peer_id: self.peer_id.clone(),
            security_peer_id: self.security_peer_id,
            is_trusted: self.is_trusted,
            nickname,
            verified_at: self.verified_at,
        }
    }
}

/// A request for access to a stream.
#[derive(Debug)]
pub struct AccessRequest {
    pub peer_id: PeerId,
    pub requested_at: SystemTime,
    pub device_name: Option<String>,
}

impl Clone for AccessRequest {
    fn clone(&self) -> (r: Self)
        ensures
            r == *self,
    {
        let device_name = match &self.device_name {
            Some(n) => Some(n.clone()),
            None => None,
        };
        Self { peer_id: self.peer_id.clone(), requested_at: self.requested_at, device_name }
    }
}

/// Approved viewer access.
#[derive(Debug)]
pub struct ViewerAccess {
    pub peer_id: PeerId,
    pub approved_at: SystemTime,
    pub permissions: ViewerPermissions,
}

impl Clone for ViewerAccess {
    fn clone(&self) -> (r: Self)
        ensures
            r == *self,
    {
        Self { peer_id: self.peer_id.clone(), approved_at: self.approved_at, permissions: self.permissions }
    }
}

/// Whether `x` is the value of some key of `m`.
pub open spec fn holds_value_requests(m: Map<Seq<char>, AccessRequest>, x: AccessRequest) -> bool {
    exists|k: Seq<char>| #[trigger] m.dom().contains(k) && m[k] == x
}

/// Copies of the values of a map: one for each key, in some order.
pub open spec fn lists_values_requests(v: Seq<AccessRequest>, m: Map<Seq<char>, AccessRequest>) -> bool {
    &&& v.len() == m.dom().len()
    &&& forall|i: int| 0 <= i < v.len() ==> holds_value_requests(m, #[trigger] v[i])
    &&& forall|k: Seq<char>| #[trigger] m.dom().contains(k) ==> exists|i: int| 0 <= i < v.len() && v[i] == m[k]
}

fn values_requests(m: &TextMap<AccessRequest>) -> (r: Vec<AccessRequest>)
    ensures
        lists_values_requests(r@, m@),
{
    let keys = m.text_keys();
    let mut out: Vec<AccessRequest> = Vec::new();
    let mut i: usize = 0;
    while i < keys.len()
        invariant
            i <= keys@.len(),
            out@.len() == i,
            keys@.len() == m@.dom().len(),
            forall|j: int| 0 <= j < keys@.len() ==> m@.dom().contains(#[trigger] keys@[j]@),
            forall|k: Seq<char>| #[trigger] m@.dom().contains(k) ==> exists|j: int| 0 <= j < keys@.len() && keys@[j]@ == k,
            forall|j: int| 0 <= j < i ==> #[trigger] out@[j] == m@[keys@[j]@],
        decreases keys@.len() - i,
    {
        let v = match m.get(&keys[i]) {
            Some(v) => v.clone(),
            None => {
                assert(m@.dom().contains(keys@[i as int]@));
                return out;
            },
        };
        out.push(v);
        i = i + 1;
    }
    proof {
        assert forall|j: int| 0 <= j < out@.len() implies holds_value_requests(m@, #[trigger] out@[j]) by {
            assert(m@.dom().contains(keys@[j]@) && m@[keys@[j]@] == out@[j]);
        }
        assert forall|k: Seq<char>| #[trigger] m@.dom().contains(k) implies exists|j: int| 0 <= j < out@.len() && out@[j] == m@[k] by {
            let j = choose|j: int| 0 <= j < keys@.len() && keys@[j]@ == k;
            assert(out@[j] == m@[keys@[j]@]);
        }
        assert(out@.len() == m@.dom().len());
    }
    out
}

/// Whether `x` is the value of some key of `m`.
pub open spec fn holds_value_access(m: Map<Seq<char>, ViewerAccess>, x: ViewerAccess) -> bool {
    exists|k: Seq<char>| #[trigger] m.dom().contains(k) && m[k] == x
}

/// Copies of the values of a map: one for each key, in some order.
pub open spec fn lists_values_access(v: Seq<ViewerAccess>, m: Map<Seq<char>, ViewerAccess>) -> bool {
    &&& v.len() == m.dom().len()
    &&& forall|i: int| 0 <= i < v.len() ==> holds_value_access(m, #[trigger] v[i])
    &&& forall|k: Seq<char>| #[trigger] m.dom().contains(k) ==> exists|i: int| 0 <= i < v.len() && v[i] == m[k]
}

fn values_access(m: &TextMap<ViewerAccess>) -> (r: Vec<ViewerAccess>)
    ensures
        lists_values_access(r@, m@),
{
    let keys = m.text_keys();
    let mut out: Vec<ViewerAccess> = Vec::new();
    let mut i: usize = 0;
    while i < keys.len()
        invariant
            i <= keys@.len(),
            out@.len() == i,
            keys@.len() == m@.dom().len(),
            forall|j: int| 0 <= j < keys@.len() ==> m@.dom().contains(#[trigger] keys@[j]@),
            forall|k: Seq<char>| #[trigger] m@.dom().contains(k) ==> exists|j: int| 0 <= j < keys@.len() && keys@[j]@ == k,
            forall|j: int| 0 <= j < i ==> #[trigger] out@[j] == m@[keys@[j]@],
        decreases keys@.len() - i,
    {
        let v = match m.get(&keys[i]) {
            Some(v) => v.clone(),
            None => {
                assert(m@.dom().contains(keys@[i as int]@));
                return out;
            },
        };
        out.push(v);
        i = i + 1;
    }
    proof {
        assert forall|j: int| 0 <= j < out@.len() implies holds_value_access(m@, #[trigger] out@[j]) by {
            assert(m@.dom().contains(keys@[j]@) && m@[keys@[j]@] == out@[j]);
        }
        assert forall|k: Seq<char>| #[trigger] m@.dom().contains(k) implies exists|j: int| 0 <= j < out@.len() && out@[j] == m@[k] by {
            let j = choose|j: int| 0 <= j < keys@.len() && keys@[j]@ == k;
            assert(out@[j] == m@[keys@[j]@]);
        }
        assert(out@.len() == m@.dom().len());
    }
    out
}

/// The refusal of an untrusted peer: `Peer <peer> is not trusted`.
pub open spec fn untrusted_message(peer: Seq<char>) -> Seq<char> {
    "Peer "@ + peer + " is not trusted"@
}

/// Access to a stream: the pending requests and the approved viewers, each
/// by peer.
pub struct StreamAccessControl {
    pending_requests: TextMap<AccessRequest>,
    approved_viewers: TextMap<ViewerAccess>,
}

impl StreamAccessControl {
    /// The pending requests, by peer.
    pub closed spec fn pending_view(&self) -> Map<Seq<char>, AccessRequest> {
        self.pending_requests@
    }

    /// The approved viewers, by peer.
    pub closed spec fn approved_view(&self) -> Map<Seq<char>, ViewerAccess> {
        self.approved_viewers@
    }

    /// No requests and no viewers.
    pub fn new() -> (r: Self)
        ensures
            r.pending_view() == Map::<Seq<char>, AccessRequest>::empty(),
            r.approved_view() == Map::<Seq<char>, ViewerAccess>::empty(),
    {
        Self { pending_requests: TextMap::new(), approved_viewers: TextMap::new() }
    }

    /// A request by `peer_id` at `now`, given whether the security manager
    /// trusts the peer: an untrusted peer is refused with a permission error;
    /// a trusted one's request replaces any earlier request of that peer.
    pub fn request_access_at(
        &mut self,
        peer_id: PeerId,
        device_name: Option<String>,
        trusted: bool,
        now: SystemTime,
    ) -> (r: StreamResult<()>)
        ensures
            final(self).approved_view() == old(self).approved_view(),
            !trusted ==> {
                &&& r matches Err(StreamError::Permission(m)) && m@ == untrusted_message(peer_id@)
                &&& final(self).pending_view() == old(self).pending_view()
            },
            trusted ==> {
                &&& r is Ok
                &&& final(self).pending_view() == old(self).pending_view().insert(
                    peer_id@,
                    AccessRequest { peer_id, requested_at: now, device_name },
                )
            },
    {
        if !trusted {
            let mut msg = String::new();
            append_str(&mut msg, "Peer ");
            append_string(&mut msg, &peer_id);
            append_str(&mut msg, " is not trusted");
            return Err(StreamError::Permission(msg));
        }
        let key = peer_id.clone();
        let request = AccessRequest { peer_id, requested_at: now, device_name };
        self.pending_requests.insert(key, request);
        Ok(())
    }

    /// Approve `peer_id` at `now` with the given permissions: its request
    /// leaves the pending ones and it becomes an approved viewer.
    pub fn approve_viewer_at(&mut self, peer_id: &PeerId, permissions: ViewerPermissions, now: SystemTime) -> (r: StreamResult<()>)
        ensures
            r is Ok,
            final(self).pending_view() == old(self).pending_view().remove(peer_id@),
            final(self).approved_view() == old(self).approved_view().insert(
                peer_id@,
                ViewerAccess { peer_id: *peer_id, approved_at: now, permissions },
            ),
    {
        self.pending_requests.remove(peer_id);
        let access = ViewerAccess { peer_id: peer_id.clone(), approved_at: now, permissions };
        self.approved_viewers.insert(peer_id.clone(), access);
        Ok(())
    }

    /// Drop the request of `peer_id`.
    pub fn reject_viewer(&mut self, peer_id: &PeerId) -> (r: StreamResult<()>)
        ensures
            r is Ok,
            final(self).pending_view() == old(self).pending_view().remove(peer_id@),
            final(self).approved_view() == old(self).approved_view(),
    {
        self.pending_requests.remove(peer_id);
        Ok(())
    }

    /// Withdraw the access of `peer_id`.
    pub fn revoke_access(&mut self, peer_id: &PeerId) -> (r: StreamResult<()>)
        ensures
            r is Ok,
            final(self).pending_view() == old(self).pending_view(),
            final(self).approved_view() == old(self).approved_view().remove(peer_id@),
    {
        self.approved_viewers.remove(peer_id);
        Ok(())
    }

    /// Whether `peer_id` is an approved viewer.
    pub fn has_access(&self, peer_id: &PeerId) -> (r: bool)
        ensures
            r == self.approved_view().dom().contains(peer_id@),
    {
        self.approved_viewers.contains_key(peer_id)
    }

    /// The pending requests, one per peer.
    pub fn get_pending_requests(&self) -> (r: Vec<AccessRequest>)
        ensures
            lists_values_requests(r@, self.pending_view()),
    {
        values_requests(&self.pending_requests)
    }

    /// The approved viewers, one per peer.
    pub fn get_approved_viewers(&self) -> (r: Vec<ViewerAccess>)
        ensures
            lists_values_access(r@, self.approved_view()),
    {
        values_access(&self.approved_viewers)
    }
}

/// An approved viewer keeps its access until it is revoked: approving a peer
/// gives it access, and revoking takes it away, whatever else was there.
pub proof fn lemma_approve_then_revoke(
    approved: Map<Seq<char>, ViewerAccess>,
    peer: Seq<char>,
    access: ViewerAccess,
)
    ensures
        approved.insert(peer, access).dom().contains(peer),
        !approved.insert(peer, access).remove(peer).dom().contains(peer),
        !approved.dom().contains(peer) ==> approved.insert(peer, access).remove(peer) == approved,
{
    if !approved.dom().contains(peer) {
        assert(approved.insert(peer, access).remove(peer) =~= approved);
    }
}

/// The refusal of a stream without a secure session:
/// `No security session for stream <id>`.
pub open spec fn no_session_message(stream: Seq<char>) -> Seq<char> {
    "No security session for stream "@ + stream
}

/// The security side of streaming: the secure session of each stream, and a
/// cache of what the security system said of each peer.
pub struct StreamSecurityManager {
    active_sessions: TextMap<SecuritySessionId>,
    trusted_peers: TextMap<PeerTrustInfo>,
}

impl StreamSecurityManager {
    /// The secure session of each stream, by its text.
    pub closed spec fn sessions_view(&self) -> Map<Seq<char>, Seq<char>> {
        self.active_sessions@.map_values(|s: SecuritySessionId| s@)
    }

    /// The cached trust of each peer.
    pub closed spec fn trust_view(&self) -> Map<Seq<char>, PeerTrustInfo> {
        self.trusted_peers@
    }

    /// No sessions, nothing cached.
    pub fn new() -> (r: Self)
        ensures
            r.sessions_view() == Map::<Seq<char>, Seq<char>>::empty(),
            r.trust_view() == Map::<Seq<char>, PeerTrustInfo>::empty(),
    {
        let r = Self { active_sessions: TextMap::new(), trusted_peers: TextMap::new() };
        assert(r.sessions_view() =~= Map::<Seq<char>, Seq<char>>::empty());
        r
    }

    /// The security system's name for a streaming peer: the fingerprint its
    /// text denotes when it is 64 hexadecimal digits, else the SHA-256 of
    /// its bytes.
    pub fn security_peer_id(peer_id: &PeerId) -> (r: SecurityPeerId)
        ensures
            r@ == text_fingerprint(peer_id@),
    {
        match SecurityPeerId::from_string(peer_id.as_str()) {
            Ok(p) => p,
            Err(_) => {
                assert(false);
                SecurityPeerId::from_fingerprint([0u8; 32])
            },
        }
    }

    /// What the cache says of a peer, if it was asked before.
    pub fn cached_trust(&self, peer_id: &PeerId) -> (r: Option<bool>)
        ensures
            self.trust_view().dom().contains(peer_id@) ==> r == Some(self.trust_view()[peer_id@].is_trusted),
            !self.trust_view().dom().contains(peer_id@) ==> r is None,
    {
        match self.trusted_peers.get(peer_id) {
            Some(info) => Some(info.is_trusted),
            None => None,
        }
    }

    /// Cache, at `now`, what the security system said of a peer (with the
    /// given nickname), and give that answer back.
    pub fn record_trust_at(&mut self, peer_id: &PeerId, is_trusted: bool, nickname: Option<String>, now: SystemTime) -> (r: bool)
        ensures
            r == is_trusted,
            final(self).sessions_view() == old(self).sessions_view(),
            final(self).trust_view().dom() == old(self).trust_view().dom().insert(peer_id@),
            final(self).trust_view()[peer_id@].peer_id == *peer_id,
            final(self).trust_view()[peer_id@].security_peer_id@ == text_fingerprint(peer_id@),
            final(self).trust_view()[peer_id@].is_trusted == is_trusted,
            final(self).trust_view()[peer_id@].nickname == nickname,
            final(self).trust_view()[peer_id@].verified_at == now,
            forall|k: Seq<char>| k != peer_id@ && #[trigger] old(self).trust_view().dom().contains(k)
                ==> final(self).trust_view()[k] == old(self).trust_view()[k],
    {
        let info = PeerTrustInfo {
            peer_id: peer_id.clone(),
            security_peer_id: Self::security_peer_id(peer_id),
            is_trusted,
            nickname,
            verified_at: now,
        };
        self.trusted_peers.insert(peer_id.clone(), info);
        is_trusted
    }

    /// Note the secure session of a stream.
    pub fn bind_session(&mut self, stream_session_id: SessionId, session: SecuritySessionId)
        ensures
            final(self).sessions_view() == old(self).sessions_view().insert(stream_session_id@, session@),
            final(self).trust_view() == old(self).trust_view(),
    {
        let ghost k = stream_session_id@;
        let ghost v = session@;
        self.active_sessions.insert(stream_session_id, session);
        assert(self.sessions_view() =~= old(self).sessions_view().insert(k, v));
    }

    /// The secure session of a stream, or a session-not-found error.
    pub fn session_for(&self, stream_session_id: &SessionId) -> (r: StreamResult<SecuritySessionId>)
        ensures
            self.sessions_view().dom().contains(stream_session_id@) ==> (r matches Ok(s) && s@ == self.sessions_view()[stream_session_id@]),
            !self.sessions_view().dom().contains(stream_session_id@) ==> (r matches Err(StreamError::SessionNotFound(m))
                && m@ == no_session_message(stream_session_id@)),
    {
        match self.active_sessions.get(stream_session_id) {
            Some(s) => Ok(s.clone()),
            None => {
                let mut msg = String::new();
                append_str(&mut msg, "No security session for stream ");
                append_string(&mut msg, stream_session_id);
                Err(StreamError::SessionNotFound(msg))
            },
        }
    }

    /// Forget the secure session of a stream.
    pub fn close_secure_session(&mut self, stream_session_id: &SessionId) -> (r: StreamResult<()>)
        ensures
            r is Ok,
            final(self).sessions_view() == old(self).sessions_view().remove(stream_session_id@),
            final(self).trust_view() == old(self).trust_view(),
    {
        self.active_sessions.remove(stream_session_id);
        assert(self.sessions_view() =~= old(self).sessions_view().remove(stream_session_id@));
        Ok(())
    }

    /// The cached trust information of a peer, if any.
    pub fn get_peer_trust_info(&self, peer_id: &PeerId) -> (r: StreamResult<Option<PeerTrustInfo>>)
        ensures
            self.trust_view().dom().contains(peer_id@) ==> r == Ok::<Option<PeerTrustInfo>, StreamError>(Some(self.trust_view()[peer_id@])),
            !self.trust_view().dom().contains(peer_id@) ==> r == Ok::<Option<PeerTrustInfo>, StreamError>(None),
    {
        match self.trusted_peers.get(peer_id) {
            Some(info) => Ok(Some(info.clone())),
            None => Ok(None),
        }
    }

    /// Forget every cached answer.
    pub fn clear_trust_cache(&mut self)
        ensures
            final(self).trust_view() == Map::<Seq<char>, PeerTrustInfo>::empty(),
            final(self).sessions_view() == old(self).sessions_view(),
    {
        self.trusted_peers.clear();
    }
}

/// Once the security system's answer about a peer is cached, asking again
/// gives that same answer without a new question.
pub proof fn lemma_cached_answer_stands(trust: Map<Seq<char>, PeerTrustInfo>, peer: Seq<char>, info: PeerTrustInfo)
    ensures
        trust.insert(peer, info).dom().contains(peer),
        trust.insert(peer, info)[peer].is_trusted == info.is_trusted,
{
}

} // verus!

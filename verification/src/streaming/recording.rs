//! Recording: permission states, statistics and storage limits.

use vstd::prelude::*;
use std::time::Duration;
use crate::clock::{duration_from_secs, duration_of_secs, unix_now_nanos};
use crate::security::peer_map::TextMap;
use crate::streaming::SessionId;
use crate::streaming::types::VideoFormat;
use crate::streaming::error::{StreamError, StreamResult};
use crate::unique_id::{new_uuid, uuid_text};

verus! {

/// Recording permission status.
#[derive(Clone, Copy, Debug, PartialEq, Eq, Structural)]
pub enum PermissionStatus {
    /// Permission request is pending.
    Pending,
    /// Permission has been granted.
    Granted,
    /// Permission has been denied.
    Denied,
    /// Permission has been revoked.
    Revoked,
}

/// A recording permission for one stream and peer. Times are nanoseconds
/// since the Unix epoch; the longest recording time is in nanoseconds too.
#[derive(Debug)]
pub struct RecordingPermission {
    pub permission_id: String,
    pub stream_session_id: SessionId,
    pub peer_id: String,
    pub requester_device: String,
    pub status: PermissionStatus,
    pub requested_at: u64,
    pub responded_at: Option<u64>,
    pub expires_at: Option<u64>,
    pub require_encryption: bool,
    pub allow_local_storage: bool,
    pub max_duration: Option<u64>,
}

impl Clone for RecordingPermission {
    fn clone(&self) -> (r: Self)
        ensures
            r == *self,
    {
        Self {
            permission_id: self.permission_id.clone(),
            stream_session_id: self.stream_session_id.clone(),
            peer_id: self.peer_id.clone(),
            requester_device: self.requester_device.clone(),
            status: self.status,
            requested_at: self.requested_at,
            responded_at: self.responded_at,
            expires_at: self.expires_at,
            require_encryption: self.require_encryption,
            allow_local_storage: self.allow_local_storage,
            max_duration: self.max_duration,
        }
    }
}

/// Whether a permission allows recording at `now`: granted and not past its expiry.
pub open spec fn permission_valid(p: RecordingPermission, now: u64) -> bool {
    p.status == PermissionStatus::Granted && match p.expires_at {
        Some(e) => !(now > e),
        None => true,
    }
}

/// Whether a permission has expired at `now`.
pub open spec fn permission_expired(p: RecordingPermission, now: u64) -> bool {
    match p.expires_at {
        Some(e) => now > e,
        None => false,
    }
}

impl RecordingPermission {
    /// A pending request, made at `now`, to record a stream; local storage
    /// allowed, no encryption asked for, no expiry.
    pub fn new_request_at(stream_session_id: SessionId, peer_id: String, requester_device: String, now: u64) -> (r: Self)
        ensures
            r.permission_id@.len() == 36,
            r.stream_session_id == stream_session_id,
            r.peer_id == peer_id,
            r.requester_device == requester_device,
            r.status == PermissionStatus::Pending,
            r.requested_at == now,
            r.responded_at is None,
            r.expires_at is None,
            !r.require_encryption,
            r.allow_local_storage,
            r.max_duration is None,
    {
        Self {
            permission_id: uuid_text(&new_uuid()),
            stream_session_id,
            peer_id,
            requester_device,
            status: PermissionStatus::Pending,
            requested_at: now,
            responded_at: None,
            expires_at: None,
            require_encryption: false,
            allow_local_storage: true,
            max_duration: None,
        }
    }

    /// A pending request made now (see `new_request_at`).
    pub fn new_request(stream_session_id: SessionId, peer_id: String, requester_device: String) -> (r: Self)
        ensures
            r.permission_id@.len() == 36,
            r.stream_session_id == stream_session_id,
            r.peer_id == peer_id,
            r.requester_device == requester_device,
            r.status == PermissionStatus::Pending,
            r.responded_at is None,
            r.expires_at is None,
            !r.require_encryption,
            r.allow_local_storage,
            r.max_duration is None,
    {
        let now = unix_now_nanos();
        Self::new_request_at(stream_session_id, peer_id, requester_device, now)
    }

    /// Whether the permission allows recording at `now`.
    pub fn is_valid_at(&self, now: u64) -> (r: bool)
        ensures
            r == permission_valid(*self, now),
    {
        if self.status != PermissionStatus::Granted {
            return false;
        }
        match self.expires_at {
            Some(e) => !(now > e),
            None => true,
        }
    }

    /// Whether the permission allows recording now.
    pub fn is_valid(&self) -> (r: bool)
        ensures
            exists|now: u64| r == #[trigger] permission_valid(*self, now),
    {
        let now = unix_now_nanos();
        self.is_valid_at(now)
    }
}

/// The first permission of the listed ones that exists, belongs to `peer`
/// and is valid at `now`, if any.
pub open spec fn first_valid(
    ids: Seq<Seq<char>>,
    perms: Map<Seq<char>, RecordingPermission>,
    peer: Seq<char>,
    now: u64,
) -> Option<RecordingPermission>
    decreases ids.len(),
{
    if ids.len() == 0 {
        None
    } else if perms.dom().contains(ids[0]) && perms[ids[0]].peer_id@ == peer && permission_valid(perms[ids[0]], now) {
        Some(perms[ids[0]])
    } else {
        first_valid(ids.drop_first(), perms, peer, now)
    }
}

/// The listed permissions that exist, in list order.
pub open spec fn existing(ids: Seq<Seq<char>>, perms: Map<Seq<char>, RecordingPermission>) -> Seq<RecordingPermission>
    decreases ids.len(),
{
    if ids.len() == 0 {
        Seq::empty()
    } else if perms.dom().contains(ids[0]) {
        seq![perms[ids[0]]] + existing(ids.drop_first(), perms)
    } else {
        existing(ids.drop_first(), perms)
    }
}

/// The permission identifiers listed for a stream, or none.
pub open spec fn listed(m: Map<Seq<char>, Seq<Seq<char>>>, k: Seq<char>) -> Seq<Seq<char>> {
    if m.dom().contains(k) {
        m[k]
    } else {
        Seq::empty()
    }
}

/// The texts of a sequence of strings.
pub open spec fn texts(v: Seq<String>) -> Seq<Seq<char>> {
    Seq::new(v.len(), |i: int| v[i]@)
}

/// What answering a pending permission does: an internal error without such
/// a permission, an invalid-state error unless it is pending; otherwise it
/// becomes `p2`.
pub open spec fn answer_step(
    before: Map<Seq<char>, RecordingPermission>,
    id: Seq<char>,
    needed: PermissionStatus,
    after: Map<Seq<char>, RecordingPermission>,
    r: StreamResult<()>,
    p2: RecordingPermission,
) -> bool {
    if !before.dom().contains(id) {
        (r matches Err(StreamError::Internal(_))) && after == before
    } else if before[id].status != needed {
        (r matches Err(StreamError::InvalidState(_))) && after == before
    } else {
        r is Ok && after == before.insert(id, p2)
    }
}

/// Permission manager: the recording permissions by identifier, and the
/// identifiers asked for each stream, in order.
pub struct PermissionManager {
    permissions: TextMap<RecordingPermission>,
    stream_permissions: TextMap<Vec<String>>,
}

impl PermissionManager {
    /// The permissions, by identifier.
    pub closed spec fn permissions_view(&self) -> Map<Seq<char>, RecordingPermission> {
        self.permissions@
    }

    /// The permission identifiers of each stream, in order.
    pub closed spec fn streams_view(&self) -> Map<Seq<char>, Seq<Seq<char>>> {
        Map::new(
            |k: Seq<char>| self.stream_permissions@.dom().contains(k),
            |k: Seq<char>| texts(self.stream_permissions@[k]@),
        )
    }

    /// A manager without permissions.
    pub fn new() -> (r: Self)
        ensures
            r.permissions_view() == Map::<Seq<char>, RecordingPermission>::empty(),
            r.streams_view() == Map::<Seq<char>, Seq<Seq<char>>>::empty(),
    {
        let r = Self { permissions: TextMap::new(), stream_permissions: TextMap::new() };
        assert(r.streams_view() =~= Map::<Seq<char>, Seq<Seq<char>>>::empty());
        r
    }

    /// Ask, at `now`, to record a stream; granted at once when `auto_approve`
    /// (the answer of the request callback), pending otherwise. The request is
    /// kept and listed for the stream.
    pub fn request_permission_at(
        &mut self,
        stream_session_id: SessionId,
        peer_id: String,
        requester_device: String,
        require_encryption: bool,
        auto_approve: bool,
        now: u64,
    ) -> (r: StreamResult<RecordingPermission>)
        ensures
            r matches Ok(p) && {
                &&& p.permission_id@.len() == 36
                &&& p.stream_session_id == stream_session_id
                &&& p.peer_id == peer_id
                &&& p.requester_device == requester_device
                &&& p.require_encryption == require_encryption
                &&& p.requested_at == now
                &&& p.status == (if auto_approve { PermissionStatus::Granted } else { PermissionStatus::Pending })
                &&& p.responded_at == (if auto_approve { Some(now) } else { None })
                &&& p.expires_at is None
                &&& p.allow_local_storage
                &&& p.max_duration is None
                &&& final(self).permissions_view() == old(self).permissions_view().insert(p.permission_id@, p)
                &&& final(self).streams_view() == old(self).streams_view().insert(
                    stream_session_id@,
                    listed(old(self).streams_view(), stream_session_id@).push(p.permission_id@),
                )
            },
    {
        let stream_key = stream_session_id.clone();
        let mut permission = RecordingPermission::new_request_at(stream_session_id, peer_id, requester_device, now);
        permission.require_encryption = require_encryption;
        if auto_approve {
            permission.status = PermissionStatus::Granted;
            permission.responded_at = Some(now);
        }
        let id = permission.permission_id.clone();
        self.permissions.insert(id.clone(), permission.clone());
        let mut ids: Vec<String> = match self.stream_permissions.get(&stream_key) {
            Some(v) => v.clone(),
            None => Vec::new(),
        };
        proof {
            assert(texts(ids@) =~= listed(old(self).streams_view(), stream_key@));
        }
        let ghost before_ids = ids@;
        ids.push(id);
        let ghost after_ids = ids@;
        self.stream_permissions.insert(stream_key, ids);
        proof {
            assert(texts(after_ids) =~= texts(before_ids).push(permission.permission_id@));
            assert(self.streams_view() =~= old(self).streams_view().insert(
                stream_session_id@,
                listed(old(self).streams_view(), stream_session_id@).push(permission.permission_id@),
            ));
        }
        Ok(permission)
    }

    /// Ask, now, to record a stream (see `request_permission_at`).
    pub fn request_permission(
        &mut self,
        stream_session_id: SessionId,
        peer_id: String,
        requester_device: String,
        require_encryption: bool,
        auto_approve: bool,
    ) -> (r: StreamResult<RecordingPermission>)
        ensures
            r matches Ok(p) && {
                &&& p.stream_session_id == stream_session_id
                &&& p.peer_id == peer_id
                &&& p.require_encryption == require_encryption
                &&& p.status == (if auto_approve { PermissionStatus::Granted } else { PermissionStatus::Pending })
                &&& final(self).permissions_view() == old(self).permissions_view().insert(p.permission_id@, p)
                &&& final(self).streams_view() == old(self).streams_view().insert(
                    stream_session_id@,
                    listed(old(self).streams_view(), stream_session_id@).push(p.permission_id@),
                )
            },
    {
        let now = unix_now_nanos();
        self.request_permission_at(stream_session_id, peer_id, requester_device, require_encryption, auto_approve, now)
    }

    /// A copy of permission `id`, if it exists.
    fn permission_of(&self, id: &String) -> (r: Option<RecordingPermission>)
        ensures
            match r {
                Some(p) => self.permissions_view().dom().contains(id@) && p == self.permissions_view()[id@],
                None => !self.permissions_view().dom().contains(id@),
            },
    {
        match self.permissions.get(id) {
            Some(p) => Some(p.clone()),
            None => None,
        }
    }

    /// Grant a pending permission at `now`, with the given encryption demand
    /// and longest recording time; it then expires that long after `now`
    /// (no expiry when that time is past the clock's range).
    pub fn approve_permission_at(
        &mut self,
        permission_id: String,
        require_encryption: bool,
        max_duration: Option<u64>,
        now: u64,
    ) -> (r: StreamResult<()>)
        ensures
            final(self).streams_view() == old(self).streams_view(),
            answer_step(
                old(self).permissions_view(),
                permission_id@,
                PermissionStatus::Pending,
                final(self).permissions_view(),
                r,
                RecordingPermission {
                    status: PermissionStatus::Granted,
                    responded_at: Some(now),
                    require_encryption,
                    max_duration,
                    expires_at: match max_duration {
                        Some(d) => if now + d <= u64::MAX { Some((now + d) as u64) } else { None },
                        None => old(self).permissions_view()[permission_id@].expires_at,
                    },
                    ..old(self).permissions_view()[permission_id@]
                },
            ),
    {
        let mut p = match self.permission_of(&permission_id) {
            Some(p) => p,
            None => return Err(StreamError::internal("Permission not found")),
        };
        if p.status != PermissionStatus::Pending {
            return Err(StreamError::invalid_state("Cannot approve permission in its state"));
        }
        p.status = PermissionStatus::Granted;
        p.responded_at = Some(now);
        p.require_encryption = require_encryption;
        p.max_duration = max_duration;
        match max_duration {
            Some(d) => {
                p.expires_at = now.checked_add(d);
            },
            None => {},
        }
        self.permissions.insert(permission_id, p);
        Ok(())
    }

    /// Grant a pending permission now (see `approve_permission_at`).
    pub fn approve_permission(
        &mut self,
        permission_id: String,
        require_encryption: bool,
        max_duration: Option<u64>,
    ) -> (r: StreamResult<()>)
        ensures
            final(self).streams_view() == old(self).streams_view(),
            exists|now: u64|
                answer_step(
                    old(self).permissions_view(),
                    permission_id@,
                    PermissionStatus::Pending,
                    final(self).permissions_view(),
                    r,
                    #[trigger] granted(old(self).permissions_view()[permission_id@], require_encryption, max_duration, now),
                ),
    {
        let now = unix_now_nanos();
        let r = self.approve_permission_at(permission_id, require_encryption, max_duration, now);
        assert(answer_step(
            old(self).permissions_view(),
            permission_id@,
            PermissionStatus::Pending,
            self.permissions_view(),
            r,
            granted(old(self).permissions_view()[permission_id@], require_encryption, max_duration, now),
        ));
        r
    }

    /// Deny a pending permission at `now`.
    pub fn deny_permission_at(&mut self, permission_id: String, now: u64) -> (r: StreamResult<()>)
        ensures
            final(self).streams_view() == old(self).streams_view(),
            answer_step(
                old(self).permissions_view(),
                permission_id@,
                PermissionStatus::Pending,
                final(self).permissions_view(),
                r,
                RecordingPermission {
                    status: PermissionStatus::Denied,
                    responded_at: Some(now),
                    ..old(self).permissions_view()[permission_id@]
                },
            ),
    {
        let mut p = match self.permission_of(&permission_id) {
            Some(p) => p,
            None => return Err(StreamError::internal("Permission not found")),
        };
        if p.status != PermissionStatus::Pending {
            return Err(StreamError::invalid_state("Cannot deny permission in its state"));
        }
        p.status = PermissionStatus::Denied;
        p.responded_at = Some(now);
        self.permissions.insert(permission_id, p);
        Ok(())
    }

    /// Deny a pending permission now.
    pub fn deny_permission(&mut self, permission_id: String) -> (r: StreamResult<()>)
        ensures
            final(self).streams_view() == old(self).streams_view(),
            exists|now: u64|
                answer_step(
                    old(self).permissions_view(),
                    permission_id@,
                    PermissionStatus::Pending,
                    final(self).permissions_view(),
                    r,
                    #[trigger] denied(old(self).permissions_view()[permission_id@], now),
                ),
    {
        let now = unix_now_nanos();
        let r = self.deny_permission_at(permission_id, now);
        assert(answer_step(
            old(self).permissions_view(),
            permission_id@,
            PermissionStatus::Pending,
            self.permissions_view(),
            r,
            denied(old(self).permissions_view()[permission_id@], now),
        ));
        r
    }

    /// Revoke a granted permission.
    pub fn revoke_permission(&mut self, permission_id: String) -> (r: StreamResult<()>)
        ensures
            final(self).streams_view() == old(self).streams_view(),
            answer_step(
                old(self).permissions_view(),
                permission_id@,
                PermissionStatus::Granted,
                final(self).permissions_view(),
                r,
                RecordingPermission { status: PermissionStatus::Revoked, ..old(self).permissions_view()[permission_id@] },
            ),
    {
        let mut p = match self.permission_of(&permission_id) {
            Some(p) => p,
            None => return Err(StreamError::internal("Permission not found")),
        };
        if p.status != PermissionStatus::Granted {
            return Err(StreamError::invalid_state("Cannot revoke permission in its state"));
        }
        p.status = PermissionStatus::Revoked;
        self.permissions.insert(permission_id, p);
        Ok(())
    }

    /// The first permission listed for the stream that belongs to `peer_id`
    /// and is valid at `now`, if any.
    pub fn get_permission_at(&self, stream_session_id: SessionId, peer_id: &str, now: u64) -> (r: StreamResult<Option<RecordingPermission>>)
        ensures
            r matches Ok(o) && o == first_valid(
                listed(self.streams_view(), stream_session_id@),
                self.permissions_view(),
                peer_id@,
                now,
            ),
    {
        let ids: Vec<String> = match self.stream_permissions.get(&stream_session_id) {
            Some(v) => v.clone(),
            None => {
                return Ok(None);
            },
        };
        let ghost all = texts(ids@);
        assert(all =~= listed(self.streams_view(), stream_session_id@));
        let peer = String::from_str(peer_id);
        assert(all.skip(0) =~= all);
        let mut i: usize = 0;
        while i < ids.len()
            invariant
                i <= ids@.len(),
                all == texts(ids@),
                all == listed(self.streams_view(), stream_session_id@),
                peer@ == peer_id@,
                first_valid(all, self.permissions_view(), peer_id@, now) == first_valid(
                    all.skip(i as int),
                    self.permissions_view(),
                    peer_id@,
                    now,
                ),
            decreases ids@.len() - i,
        {
            let ghost rest = all.skip(i as int);
            assert(rest[0] == ids@[i as int]@);
            assert(rest.drop_first() =~= all.skip(i as int + 1));
            match self.permission_of(&ids[i]) {
                Some(p) => {
                    if p.peer_id == peer && p.is_valid_at(now) {
                        proof {
                            assert(p.peer_id@ == peer_id@);
                            assert(first_valid(rest, self.permissions_view(), peer_id@, now) == Some(p));
                        }
                        return Ok(Some(p));
                    }
                },
                None => {},
            }
            i = i + 1;
        }
        assert(all.skip(i as int).len() == 0);
        Ok(None)
    }

    /// Whether some permission listed for the stream belongs to `peer_id` and
    /// is valid at `now`.
    pub fn is_recording_permitted_at(&self, stream_session_id: SessionId, peer_id: &str, now: u64) -> (r: StreamResult<bool>)
        ensures
            r matches Ok(b) && b == first_valid(
                listed(self.streams_view(), stream_session_id@),
                self.permissions_view(),
                peer_id@,
                now,
            ) is Some,
    {
        match self.get_permission_at(stream_session_id, peer_id, now) {
            Ok(Some(_)) => Ok(true),
            Ok(None) => Ok(false),
            Err(e) => Err(e),
        }
    }

    /// Whether recording the stream is permitted to `peer_id` now.
    pub fn is_recording_permitted(&self, stream_session_id: SessionId, peer_id: &str) -> (r: StreamResult<bool>)
        ensures
            r matches Ok(b) && exists|now: u64|
                b == #[trigger] first_valid(
                    listed(self.streams_view(), stream_session_id@),
                    self.permissions_view(),
                    peer_id@,
                    now,
                ) is Some,
    {
        let now = unix_now_nanos();
        self.is_recording_permitted_at(stream_session_id, peer_id, now)
    }

    /// The permission of the stream for `peer_id` valid now, if any.
    pub fn get_permission(&self, stream_session_id: SessionId, peer_id: &str) -> (r: StreamResult<Option<RecordingPermission>>)
        ensures
            r matches Ok(o) && exists|now: u64|
                o == #[trigger] first_valid(
                    listed(self.streams_view(), stream_session_id@),
                    self.permissions_view(),
                    peer_id@,
                    now,
                ),
    {
        let now = unix_now_nanos();
        self.get_permission_at(stream_session_id, peer_id, now)
    }

    /// The pending permissions, each once.
    pub fn get_pending_requests(&self) -> (r: StreamResult<Vec<RecordingPermission>>)
        ensures
            r matches Ok(v) && {
                &&& forall|i: int|
                    0 <= i < v@.len() ==> (#[trigger] v@[i]).status == PermissionStatus::Pending && exists|k: Seq<char>|
                        self.permissions_view().dom().contains(k) && self.permissions_view()[k] == v@[i]
                &&& forall|k: Seq<char>|
                    #[trigger] self.permissions_view().dom().contains(k) && self.permissions_view()[k].status
                        == PermissionStatus::Pending ==> exists|i: int| 0 <= i < v@.len() && v@[i] == self.permissions_view()[k]
            },
    {
        let keys = self.permissions.text_keys();
        let mut out: Vec<RecordingPermission> = Vec::new();
        let mut i: usize = 0;
        while i < keys.len()
            invariant
                i <= keys@.len(),
                forall|k: Seq<char>| #[trigger] self.permissions_view().dom().contains(k) ==> exists|j: int| 0 <= j < keys@.len() && keys@[j]@ == k,
                forall|j: int| 0 <= j < keys@.len() ==> self.permissions_view().dom().contains(#[trigger] keys@[j]@),
                forall|j: int|
                    0 <= j < out@.len() ==> (#[trigger] out@[j]).status == PermissionStatus::Pending && exists|k: Seq<char>|
                        self.permissions_view().dom().contains(k) && self.permissions_view()[k] == out@[j],
                forall|j: int|
                    0 <= j < i && self.permissions_view()[#[trigger] keys@[j]@].status == PermissionStatus::Pending
                        ==> exists|m: int| 0 <= m < out@.len() && out@[m] == self.permissions_view()[keys@[j]@],
            decreases keys@.len() - i,
        {
            match self.permission_of(&keys[i]) {
                Some(p) => {
                    if p.status == PermissionStatus::Pending {
                        let ghost before = out@;
                        let ghost key = keys@[i as int]@;
                        out.push(p);
                        proof {
                            assert(self.permissions_view().dom().contains(key) && self.permissions_view()[key] == out@[before.len() as int]);
                            assert forall|j: int|
                                0 <= j < i + 1 && self.permissions_view()[#[trigger] keys@[j]@].status == PermissionStatus::Pending
                                    implies exists|m: int| 0 <= m < out@.len() && out@[m] == self.permissions_view()[keys@[j]@] by {
                                if j == i {
                                    assert(out@[before.len() as int] == self.permissions_view()[keys@[j]@]);
                                } else {
                                    let m = choose|m: int| 0 <= m < before.len() && before[m] == self.permissions_view()[keys@[j]@];
                                    assert(out@[m] == before[m]);
                                }
                            }
                        }
                    }
                },
                None => {},
            }
            i = i + 1;
        }
        proof {
            assert forall|k: Seq<char>|
                #[trigger] self.permissions_view().dom().contains(k) && self.permissions_view()[k].status
                    == PermissionStatus::Pending implies exists|i: int| 0 <= i < out@.len() && out@[i] == self.permissions_view()[k] by {
                let j = choose|j: int| 0 <= j < keys@.len() && keys@[j]@ == k;
                assert(self.permissions_view()[keys@[j]@].status == PermissionStatus::Pending);
            }
        }
        Ok(out)
    }

    /// The permissions listed for a stream that exist, in list order.
    pub fn get_stream_permissions(&self, stream_session_id: SessionId) -> (r: StreamResult<Vec<RecordingPermission>>)
        ensures
            r matches Ok(v) && v@ == existing(listed(self.streams_view(), stream_session_id@), self.permissions_view()),
    {
        let ids: Vec<String> = match self.stream_permissions.get(&stream_session_id) {
            Some(v) => v.clone(),
            None => {
                return Ok(Vec::new());
            },
        };
        let ghost all = texts(ids@);
        assert(all =~= listed(self.streams_view(), stream_session_id@));
        let mut out: Vec<RecordingPermission> = Vec::new();
        assert(all.skip(0) =~= all);
        assert(out@ + existing(all, self.permissions_view()) =~= existing(all, self.permissions_view()));
        let mut i: usize = 0;
        while i < ids.len()
            invariant
                i <= ids@.len(),
                all == texts(ids@),
                existing(all, self.permissions_view()) == out@ + existing(all.skip(i as int), self.permissions_view()),
            decreases ids@.len() - i,
        {
            let ghost rest = all.skip(i as int);
            assert(rest[0] == ids@[i as int]@);
            assert(rest.drop_first() =~= all.skip(i as int + 1));
            match self.permission_of(&ids[i]) {
                Some(p) => {
                    let ghost before = out@;
                    out.push(p);
                    assert(out@ + existing(all.skip(i as int + 1), self.permissions_view()) =~= before + existing(
                        rest,
                        self.permissions_view(),
                    ));
                },
                None => {},
            }
            i = i + 1;
        }
        assert(all.skip(i as int).len() == 0);
        assert(out@ + existing(all.skip(i as int), self.permissions_view()) =~= out@);
        Ok(out)
    }

    /// Drop the permissions expired at `now`.
    pub fn cleanup_expired_permissions_at(&mut self, now: u64) -> (r: StreamResult<()>)
        ensures
            r is Ok,
            final(self).streams_view() == old(self).streams_view(),
            final(self).permissions_view() == unexpired(old(self).permissions_view(), now),
    {
        let ghost pre = self.permissions_view();
        let ghost mut done: Set<Seq<char>> = Set::empty();
        let keys = self.permissions.text_keys();
        let mut i: usize = 0;
        while i < keys.len()
            invariant
                i <= keys@.len(),
                pre == old(self).permissions_view(),
                self.streams_view() == old(self).streams_view(),
                forall|k: Seq<char>| #[trigger] pre.dom().contains(k) ==> exists|j: int| 0 <= j < keys@.len() && keys@[j]@ == k,
                forall|j: int| 0 <= j < i ==> done.contains(#[trigger] keys@[j]@),
                self.permissions_view() == Map::new(
                    |k: Seq<char>| pre.dom().contains(k) && (!done.contains(k) || !permission_expired(pre[k], now)),
                    |k: Seq<char>| pre[k],
                ),
            decreases keys@.len() - i,
        {
            let k = &keys[i];
            let expired = match self.permissions.get(k) {
                Some(p) => match p.expires_at {
                    Some(e) => now > e,
                    None => false,
                },
                None => false,
            };
            if expired {
                self.permissions.remove(k);
            }
            proof {
                done = done.insert(k@);
                assert(self.permissions_view() =~= Map::new(
                    |key: Seq<char>| pre.dom().contains(key) && (!done.contains(key) || !permission_expired(pre[key], now)),
                    |key: Seq<char>| pre[key],
                ));
            }
            i = i + 1;
        }
        proof {
            assert forall|key: Seq<char>| pre.dom().contains(key) implies done.contains(key) by {
                let j = choose|j: int| 0 <= j < keys@.len() && keys@[j]@ == key;
                assert(done.contains(keys@[j]@));
            }
            assert(self.permissions_view() =~= unexpired(pre, now));
        }
        Ok(())
    }

    /// Drop the permissions expired now.
    pub fn cleanup_expired_permissions(&mut self) -> (r: StreamResult<()>)
        ensures
            r is Ok,
            final(self).streams_view() == old(self).streams_view(),
            exists|now: u64| final(self).permissions_view() == #[trigger] unexpired(old(self).permissions_view(), now),
    {
        let now = unix_now_nanos();
        self.cleanup_expired_permissions_at(now)
    }
}

/// The permissions of `m` that have not expired at `now`.
pub open spec fn unexpired(m: Map<Seq<char>, RecordingPermission>, now: u64) -> Map<Seq<char>, RecordingPermission> {
    Map::new(|k: Seq<char>| m.dom().contains(k) && !permission_expired(m[k], now), |k: Seq<char>| m[k])
}

/// The permission `p` granted at `now` with the given demands.
pub open spec fn granted(p: RecordingPermission, require_encryption: bool, max_duration: Option<u64>, now: u64) -> RecordingPermission {
    RecordingPermission {
        status: PermissionStatus::Granted,
        responded_at: Some(now),
        require_encryption,
        max_duration,
        expires_at: match max_duration {
            Some(d) => if now + d <= u64::MAX { Some((now + d) as u64) } else { None },
            None => p.expires_at,
        },
        ..p
    }
}

/// The permission `p` denied at `now`.
pub open spec fn denied(p: RecordingPermission, now: u64) -> RecordingPermission {
    RecordingPermission { status: PermissionStatus::Denied, responded_at: Some(now), ..p }
}


/// Space asked for a recording without a size limit: one GiB.
pub const DEFAULT_RECORDING_SPACE: u64 = 1024 * 1024 * 1024;

/// The space a recording asks for: its size limit, or one GiB without one.
pub fn required_space(max_file_size: Option<u64>) -> (r: u64)
    ensures
        r == match max_file_size {
            Some(m) => m,
            None => DEFAULT_RECORDING_SPACE,
        },
{
    match max_file_size {
        Some(m) => m,
        None => DEFAULT_RECORDING_SPACE,
    }
}

/// What the storage limit says of a new recording.
#[derive(Clone, Copy, Debug, PartialEq, Eq, Structural)]
pub enum SpaceDecision {
    /// It fits under the total limit.
    Fits,
    /// It does not fit; old recordings are to be cleaned up and the usage
    /// checked again.
    CleanupFirst,
    /// It does not fit.
    Insufficient,
}

/// Check `usage + required` against the total limit; a recording that does
/// not fit first gets a cleanup when automatic cleanup is on, unless the
/// cleanup already ran.
pub fn check_total_space(usage: u64, required: u64, config: &StorageConfig, cleaned: bool) -> (r: SpaceDecision)
    ensures
        usage + required <= config.max_total_size ==> r == SpaceDecision::Fits,
        usage + required > config.max_total_size ==> r == if config.auto_cleanup && !cleaned {
            SpaceDecision::CleanupFirst
        } else {
            SpaceDecision::Insufficient
        },
{
    if usage <= config.max_total_size && required <= config.max_total_size - usage {
        SpaceDecision::Fits
    } else if config.auto_cleanup && !cleaned {
        SpaceDecision::CleanupFirst
    } else {
        SpaceDecision::Insufficient
    }
}

/// The refusal of a recording that does not fit under the total limit.
pub fn insufficient_storage() -> (r: StreamError)
    ensures
        r matches StreamError::Resource(m) && m@ == "Insufficient storage space for recording"@,
{
    StreamError::resource("Insufficient storage space for recording")
}

/// Check the free space of the file system: the recording and the reserve
/// must both fit, else a resource error.
pub fn check_free_space(free_space: u64, required: u64, config: &StorageConfig) -> (r: StreamResult<()>)
    ensures
        r is Ok <==> free_space >= required + config.min_free_space,
        r is Err ==> (r matches Err(StreamError::Resource(m)) && m@ == "Insufficient filesystem space for recording"@),
{
    if required > free_space || config.min_free_space > free_space - required {
        return Err(StreamError::resource("Insufficient filesystem space for recording"));
    }
    Ok(())
}

/// Whether a recording made at `created_nanos` is past the age limit at
/// `now_nanos` (a recording dated after `now_nanos` is not).
pub open spec fn too_old(created_nanos: u64, now_nanos: u64, max_age_nanos: u128) -> bool {
    now_nanos >= created_nanos && now_nanos - created_nanos > max_age_nanos
}

/// Whether a recording made at `created_nanos` is past the age limit.
pub fn is_too_old(created_nanos: u64, now_nanos: u64, max_age_nanos: u128) -> (r: bool)
    ensures
        r == too_old(created_nanos, now_nanos, max_age_nanos),
{
    now_nanos >= created_nanos && ((now_nanos - created_nanos) as u128) > max_age_nanos
}

/// The usage left after deleting a recording of `size` bytes (never below
/// zero).
pub fn usage_after_delete(usage: u64, size: u64) -> (r: u64)
    ensures
        r == if usage >= size { usage - size } else { 0 },
{
    if usage >= size {
        usage - size
    } else {
        0
    }
}

/// Metadata of a stored recording; times in nanoseconds since the Unix epoch.
#[derive(Debug)]
pub struct RecordingEntry {
    pub session_id: SessionId,
    pub file_path: String,
    pub format: VideoFormat,
    pub file_size: u64,
    pub duration: Duration,
    pub created_at: u64,
    pub stream_source: String,
    pub quality_preset: String,
    pub tags: Vec<String>,
}

/// The abstract value of a recording's metadata: its texts as character
/// sequences.
pub struct EntryView {
    pub session_id: Seq<char>,
    pub file_path: Seq<char>,
    pub format: VideoFormat,
    pub file_size: u64,
    pub duration: Duration,
    pub created_at: u64,
    pub stream_source: Seq<char>,
    pub quality_preset: Seq<char>,
    pub tags: Seq<Seq<char>>,
}

impl View for RecordingEntry {
    type V = EntryView;

    open spec fn view(&self) -> EntryView {
        EntryView {
            session_id: self.session_id@,
            file_path: self.file_path@,
            format: self.format,
            file_size: self.file_size,
            duration: self.duration,
            created_at: self.created_at,
            stream_source: self.stream_source@,
            quality_preset: self.quality_preset@,
            tags: texts(self.tags@),
        }
    }
}

impl Clone for RecordingEntry {
    fn clone(&self) -> (r: Self)
        ensures
            r@ == self@,
    {
        let tags = self.tags.clone();
        proof {
            assert forall|i: int| 0 <= i < tags@.len() implies tags@[i]@ == self.tags@[i]@ by {
                assert(cloned::<String>(self.tags[i], tags[i]));
            }
            assert(texts(tags@) =~= texts(self.tags@));
        }
        Self {
            session_id: self.session_id.clone(),
            file_path: self.file_path.clone(),
            format: self.format,
            file_size: self.file_size,
            duration: self.duration,
            created_at: self.created_at,
            stream_source: self.stream_source.clone(),
            quality_preset: self.quality_preset.clone(),
            tags,
        }
    }
}

/// The tags after adding `new` in order, each one that is not there yet.
pub open spec fn tags_added(old: Seq<Seq<char>>, new: Seq<Seq<char>>) -> Seq<Seq<char>>
    decreases new.len(),
{
    if new.len() == 0 {
        old
    } else {
        tags_added(if old.contains(new[0]) { old } else { old.push(new[0]) }, new.drop_first())
    }
}

/// Adding tags keeps every tag a recording had and leaves it carrying each
/// tag added; a list without repeats stays without repeats.
pub proof fn lemma_tags_added(old: Seq<Seq<char>>, new: Seq<Seq<char>>)
    ensures
        forall|t: Seq<char>| old.contains(t) ==> #[trigger] tags_added(old, new).contains(t),
        forall|i: int| 0 <= i < new.len() ==> tags_added(old, new).contains(#[trigger] new[i]),
        old.no_duplicates() ==> tags_added(old, new).no_duplicates(),
    decreases new.len(),
{
    if new.len() > 0 {
        let next = if old.contains(new[0]) { old } else { old.push(new[0]) };
        let rest = new.drop_first();
        lemma_tags_added(next, rest);
        assert(tags_added(old, new) == tags_added(next, rest));
        assert forall|t: Seq<char>| old.contains(t) implies #[trigger] tags_added(old, new).contains(t) by {
            if !old.contains(new[0]) {
                let j = choose|j: int| 0 <= j < old.len() && old[j] == t;
                assert(next[j] == t);
            }
            assert(next.contains(t));
            assert(tags_added(next, rest).contains(t));
        }
        assert forall|i: int| 0 <= i < new.len() implies tags_added(old, new).contains(#[trigger] new[i]) by {
            if i == 0 {
                if !old.contains(new[0]) {
                    assert(next[old.len() as int] == new[0]);
                }
                assert(next.contains(new[0]));
                assert(tags_added(next, rest).contains(new[0]));
            } else {
                assert(rest[i - 1] == new[i]);
                assert(tags_added(next, rest).contains(rest[i - 1]));
            }
        }
        if old.no_duplicates() && !old.contains(new[0]) {
            assert forall|a: int, b: int| 0 <= a < b < next.len() implies next[a] != next[b] by {
                if b == old.len() {
                    assert(old[a] == next[a]);
                }
            }
        }
    }
}

/// Whether a recording carries one of the tags asked for.
pub open spec fn has_any_tag(e: EntryView, query: Seq<Seq<char>>) -> bool {
    exists|i: int| 0 <= i < query.len() && e.tags.contains(#[trigger] query[i])
}

/// Whether `x` is the entry of some session of `m`.
pub open spec fn holds_entry(m: Map<Seq<char>, EntryView>, x: EntryView) -> bool {
    exists|k: Seq<char>| #[trigger] m.dom().contains(k) && m[k] == x
}

/// The entries of `m` that pass `keep`, one for each such session.
pub open spec fn lists_entries(v: Seq<RecordingEntry>, m: Map<Seq<char>, EntryView>, keep: spec_fn(EntryView) -> bool) -> bool {
    &&& forall|i: int| 0 <= i < v.len() ==> holds_entry(m, #[trigger] v[i]@) && keep(v[i]@)
    &&& forall|k: Seq<char>| #[trigger] m.dom().contains(k) && keep(m[k]) ==> exists|i: int| 0 <= i < v.len() && v[i]@ == m[k]
}

/// The catalog of stored recordings, by session.
pub struct RecordingCatalog {
    entries: TextMap<RecordingEntry>,
}

impl RecordingCatalog {
    /// The recordings, by session.
    pub closed spec fn entries_view(&self) -> Map<Seq<char>, EntryView> {
        self.entries@.map_values(|e: RecordingEntry| e@)
    }

    /// An empty catalog.
    pub fn new() -> (r: Self)
        ensures
            r.entries_view() == Map::<Seq<char>, EntryView>::empty(),
    {
        let r = Self { entries: TextMap::new() };
        assert(r.entries_view() =~= Map::<Seq<char>, EntryView>::empty());
        r
    }

    /// The entry of `k`, if any.
    fn entry_of(&self, k: &String) -> (r: Option<RecordingEntry>)
        ensures
            match r {
                Some(e) => self.entries_view().dom().contains(k@) && e@ == self.entries_view()[k@],
                None => !self.entries_view().dom().contains(k@),
            },
    {
        match self.entries.get(k) {
            Some(e) => Some(e.clone()),
            None => None,
        }
    }

    /// Store `e` for `k`.
    fn put(&mut self, k: String, e: RecordingEntry)
        ensures
            final(self).entries_view() == old(self).entries_view().insert(k@, e@),
    {
        let ghost kv = k@;
        let ghost ev = e@;
        self.entries.insert(k, e);
        assert(self.entries_view() =~= old(self).entries_view().insert(kv, ev));
    }

    /// Register a recording just started at `now`: no size, no duration, an
    /// unknown source, medium quality, no tags.
    pub fn register_recording_at(&mut self, session_id: SessionId, file_path: String, format: VideoFormat, now: u64) -> (r: StreamResult<()>)
        ensures
            r is Ok,
            final(self).entries_view() == old(self).entries_view().insert(
                session_id@,
                EntryView {
                    session_id: session_id@,
                    file_path: file_path@,
                    format,
                    file_size: 0,
                    duration: duration_of_secs(0),
                    created_at: now,
                    stream_source: "unknown"@,
                    quality_preset: "medium"@,
                    tags: Seq::empty(),
                },
            ),
    {
        let e = RecordingEntry {
            session_id: session_id.clone(),
            file_path,
            format,
            file_size: 0,
            duration: duration_from_secs(0),
            created_at: now,
            stream_source: String::from_str("unknown"),
            quality_preset: String::from_str("medium"),
            tags: Vec::new(),
        };
        assert(texts(e.tags@) =~= Seq::<Seq<char>>::empty());
        self.put(session_id, e);
        Ok(())
    }

    /// Record the final size and duration of a recording, if it is known.
    pub fn finalize_recording(&mut self, session_id: &SessionId, file_size: u64, duration: Duration) -> (r: StreamResult<()>)
        ensures
            r is Ok,
            old(self).entries_view().dom().contains(session_id@) ==> final(self).entries_view() == old(self).entries_view().insert(
                session_id@,
                EntryView { file_size, duration, ..old(self).entries_view()[session_id@] },
            ),
            !old(self).entries_view().dom().contains(session_id@) ==> final(self).entries_view() == old(self).entries_view(),
    {
        let mut e = match self.entry_of(session_id) {
            Some(e) => e,
            None => {
                return Ok(());
            },
        };
        e.file_size = file_size;
        e.duration = duration;
        self.put(session_id.clone(), e);
        Ok(())
    }

    /// The recording of a session, or a session-not-found error.
    pub fn get_recording(&self, session_id: &SessionId) -> (r: StreamResult<RecordingEntry>)
        ensures
            self.entries_view().dom().contains(session_id@) ==> (r matches Ok(e) && e@ == self.entries_view()[session_id@]),
            !self.entries_view().dom().contains(session_id@) ==> (r matches Err(StreamError::SessionNotFound(m)) && m@ == session_id@),
    {
        match self.entry_of(session_id) {
            Some(e) => Ok(e),
            None => Err(StreamError::session_not_found(session_id.as_str())),
        }
    }

    /// Remove the recording of a session and give it back (its file is the
    /// caller's to delete), or a session-not-found error.
    pub fn delete_recording(&mut self, session_id: &SessionId) -> (r: StreamResult<RecordingEntry>)
        ensures
            old(self).entries_view().dom().contains(session_id@) ==> {
                &&& r matches Ok(e) && e@ == old(self).entries_view()[session_id@]
                &&& final(self).entries_view() == old(self).entries_view().remove(session_id@)
            },
            !old(self).entries_view().dom().contains(session_id@) ==> {
                &&& r matches Err(StreamError::SessionNotFound(m)) && m@ == session_id@
                &&& final(self).entries_view() == old(self).entries_view()
            },
    {
        let e = match self.entry_of(session_id) {
            Some(e) => e,
            None => {
                return Err(StreamError::session_not_found(session_id.as_str()));
            },
        };
        self.entries.remove(session_id);
        assert(self.entries_view() =~= old(self).entries_view().remove(session_id@));
        Ok(e)
    }

    /// Add tags to a recording, each one it does not carry yet, in order; a
    /// session-not-found error for an unknown session.
    pub fn add_tags(&mut self, session_id: &SessionId, tags: Vec<String>) -> (r: StreamResult<()>)
        ensures
            old(self).entries_view().dom().contains(session_id@) ==> {
                &&& r is Ok
                &&& final(self).entries_view() == old(self).entries_view().insert(
                    session_id@,
                    EntryView {
                        tags: tags_added(old(self).entries_view()[session_id@].tags, texts(tags@)),
                        ..old(self).entries_view()[session_id@]
                    },
                )
            },
            !old(self).entries_view().dom().contains(session_id@) ==> {
                &&& r matches Err(StreamError::SessionNotFound(m)) && m@ == session_id@
                &&& final(self).entries_view() == old(self).entries_view()
            },
    {
        let mut e = match self.entry_of(session_id) {
            Some(e) => e,
            None => {
                return Err(StreamError::session_not_found(session_id.as_str()));
            },
        };
        let ghost start = e@;
        let mut i: usize = 0;
        assert(texts(tags@).skip(0) =~= texts(tags@));
        while i < tags.len()
            invariant
                i <= tags@.len(),
                e@ == (EntryView { tags: e@.tags, ..start }),
                tags_added(start.tags, texts(tags@)) == tags_added(e@.tags, texts(tags@).skip(i as int)),
            decreases tags@.len() - i,
        {
            let ghost before = e@.tags;
            let ghost rest = texts(tags@).skip(i as int);
            assert(rest[0] == tags@[i as int]@);
            assert(rest.drop_first() =~= texts(tags@).skip(i as int + 1));
            let mut found = false;
            let mut j: usize = 0;
            while j < e.tags.len()
                invariant
                    j <= e.tags@.len(),
                    i < tags@.len(),
                    before == texts(e.tags@),
                    found <==> exists|m: int| 0 <= m < j && e.tags@[m]@ == tags@[i as int]@,
                decreases e.tags@.len() - j,
            {
                if e.tags[j] == tags[i] {
                    found = true;
                }
                j = j + 1;
            }
            proof {
                if found {
                    let m = choose|m: int| 0 <= m < j && e.tags@[m]@ == tags@[i as int]@;
                    assert(before[m] == tags@[i as int]@);
                    assert(before.contains(rest[0]));
                } else {
                    assert forall|m: int| 0 <= m < before.len() implies before[m] != tags@[i as int]@ by {
                        assert(before[m] == e.tags@[m]@);
                    }
                    assert(!before.contains(rest[0]));
                }
            }
            if !found {
                e.tags.push(tags[i].clone());
                assert(texts(e.tags@) =~= before.push(tags@[i as int]@));
            }
            i = i + 1;
        }
        assert(texts(tags@).skip(i as int) =~= Seq::<Seq<char>>::empty());
        self.put(session_id.clone(), e);
        Ok(())
    }

    /// The recordings that carry at least one of the tags.
    pub fn search_by_tags(&self, tags: &Vec<String>) -> (r: StreamResult<Vec<RecordingEntry>>)
        ensures
            r matches Ok(v) && lists_entries(v@, self.entries_view(), |e: EntryView| has_any_tag(e, texts(tags@))),
    {
        let keys = self.entries.text_keys();
        let ghost keep = |e: EntryView| has_any_tag(e, texts(tags@));
        let ghost m = self.entries_view();
        let mut out: Vec<RecordingEntry> = Vec::new();
        let mut i: usize = 0;
        while i < keys.len()
            invariant
                i <= keys@.len(),
                m == self.entries_view(),
                keep == (|e: EntryView| has_any_tag(e, texts(tags@))),
                forall|j: int| 0 <= j < keys@.len() ==> m.dom().contains(#[trigger] keys@[j]@),
                forall|k: Seq<char>| #[trigger] m.dom().contains(k) ==> exists|j: int| 0 <= j < keys@.len() && keys@[j]@ == k,
                forall|j: int| 0 <= j < out@.len() ==> holds_entry(m, #[trigger] out@[j]@) && keep(out@[j]@),
                forall|j: int|
                    0 <= j < i && keep(m[#[trigger] keys@[j]@]) ==> exists|n: int| 0 <= n < out@.len() && out@[n]@ == m[keys@[j]@],
            decreases keys@.len() - i,
        {
            let e = match self.entry_of(&keys[i]) {
                Some(e) => e,
                None => {
                    assert(false);
                    return Ok(out);
                },
            };
            let matched = entry_has_any_tag(&e, tags);
            if matched {
                let ghost before = out@;
                let ghost key = keys@[i as int]@;
                out.push(e);
                proof {
                    assert(holds_entry(m, out@[before.len() as int]@)) by {
                        assert(m.dom().contains(key) && m[key] == out@[before.len() as int]@);
                    }
                    assert forall|j: int|
                        0 <= j < i + 1 && keep(m[#[trigger] keys@[j]@]) implies exists|n: int|
                            0 <= n < out@.len() && out@[n]@ == m[keys@[j]@] by {
                        if j == i {
                            assert(out@[before.len() as int]@ == m[keys@[j]@]);
                        } else {
                            let n = choose|n: int| 0 <= n < before.len() && before[n]@ == m[keys@[j]@];
                            assert(out@[n] == before[n]);
                        }
                    }
                }
            }
            i = i + 1;
        }
        proof {
            assert forall|k: Seq<char>| #[trigger] m.dom().contains(k) && keep(m[k])
                implies exists|n: int| 0 <= n < out@.len() && out@[n]@ == m[k] by {
                let j = choose|j: int| 0 <= j < keys@.len() && keys@[j]@ == k;
                assert(keep(m[keys@[j]@]));
            }
        }
        Ok(out)
    }

    /// Every recording, one per session.
    pub fn get_all_recordings(&self) -> (r: StreamResult<Vec<RecordingEntry>>)
        ensures
            r matches Ok(v) && lists_entries(v@, self.entries_view(), |e: EntryView| true),
    {
        let keys = self.entries.text_keys();
        let ghost m = self.entries_view();
        let mut out: Vec<RecordingEntry> = Vec::new();
        let mut i: usize = 0;
        while i < keys.len()
            invariant
                i <= keys@.len(),
                out@.len() == i,
                m == self.entries_view(),
                forall|j: int| 0 <= j < keys@.len() ==> m.dom().contains(#[trigger] keys@[j]@),
                forall|k: Seq<char>| #[trigger] m.dom().contains(k) ==> exists|j: int| 0 <= j < keys@.len() && keys@[j]@ == k,
                forall|j: int| 0 <= j < i ==> (#[trigger] out@[j])@ == m[keys@[j]@],
            decreases keys@.len() - i,
        {
            let e = match self.entry_of(&keys[i]) {
                Some(e) => e,
                None => {
                    assert(false);
                    return Ok(out);
                },
            };
            out.push(e);
            i = i + 1;
        }
        proof {
            assert forall|j: int| 0 <= j < out@.len() implies holds_entry(m, #[trigger] out@[j]@) by {
                assert(m.dom().contains(keys@[j]@) && m[keys@[j]@] == out@[j]@);
            }
            assert forall|k: Seq<char>| #[trigger] m.dom().contains(k) && true
                implies exists|n: int| 0 <= n < out@.len() && out@[n]@ == m[k] by {
                let j = choose|j: int| 0 <= j < keys@.len() && keys@[j]@ == k;
                assert(out@[j]@ == m[keys@[j]@]);
            }
        }
        Ok(out)
    }
}

/// Whether the entry carries one of the tags.
fn entry_has_any_tag(e: &RecordingEntry, tags: &Vec<String>) -> (r: bool)
    ensures
        r == has_any_tag(e@, texts(tags@)),
{
    let mut i: usize = 0;
    while i < tags.len()
        invariant
            i <= tags@.len(),
            forall|m: int| 0 <= m < i ==> !e@.tags.contains(#[trigger] texts(tags@)[m]),
        decreases tags@.len() - i,
    {
        let mut j: usize = 0;
        while j < e.tags.len()
            invariant
                j <= e.tags@.len(),
                i < tags@.len(),
                forall|n: int| 0 <= n < j ==> e.tags@[n]@ != tags@[i as int]@,
            decreases e.tags@.len() - j,
        {
            if e.tags[j] == tags[i] {
                proof {
                    assert(e@.tags[j as int] == texts(tags@)[i as int]);
                    assert(e@.tags.contains(texts(tags@)[i as int]));
                }
                return true;
            }
            j = j + 1;
        }
        proof {
            assert forall|n: int| 0 <= n < e@.tags.len() implies e@.tags[n] != texts(tags@)[i as int] by {
                assert(e@.tags[n] == e.tags@[n]@);
            }
        }
        i = i + 1;
    }
    false
}

impl Default for PermissionManager {
    fn default() -> (r: Self)
        ensures
            r.permissions_view() == Map::<Seq<char>, RecordingPermission>::empty(),
            r.streams_view() == Map::<Seq<char>, Seq<Seq<char>>>::empty(),
    {
        Self::new()
    }
}

/// Recording content wrapper for encryption; the frames pass through unchanged.
pub struct EncryptedRecording {
    session_id: SessionId,
    encryption_key: Vec<u8>,
    encrypted: bool,
}

impl EncryptedRecording {
    /// Whether the recording is marked encrypted.
    pub closed spec fn encrypted_view(&self) -> bool {
        self.encrypted
    }

    /// A recording of a session, marked encrypted.
    pub fn new(session_id: SessionId, encryption_key: Vec<u8>) -> (r: Self)
        ensures
            r.encrypted_view(),
    {
        Self { session_id, encryption_key, encrypted: true }
    }

    /// The frame as stored: the data, unchanged.
    pub fn encrypt_frame(&self, frame_data: &[u8]) -> (r: StreamResult<Vec<u8>>)
        ensures
            r matches Ok(v) && v@ == frame_data@,
    {
        Ok(vstd::slice::slice_to_vec(frame_data))
    }

    /// The frame as read back: the data, unchanged.
    pub fn decrypt_frame(&self, encrypted_data: &[u8]) -> (r: StreamResult<Vec<u8>>)
        ensures
            r matches Ok(v) && v@ == encrypted_data@,
    {
        Ok(vstd::slice::slice_to_vec(encrypted_data))
    }

    /// Whether the recording is marked encrypted.
    pub fn is_encrypted(&self) -> (r: bool)
        ensures
            r == self.encrypted_view(),
    {
        self.encrypted
    }
}

/// Recording statistics.
#[derive(Clone, Copy, Debug)]
pub struct RecordingStats {
    pub frames_recorded: u64,
    pub bytes_written: u64,
    pub duration: Duration,
    pub average_bitrate: u32,
}

/// Storage configuration.
#[derive(Clone, Copy, Debug)]
pub struct StorageConfig {
    /// Maximum total storage size in bytes.
    pub max_total_size: u64,
    /// Maximum age of recordings before cleanup.
    pub max_age: Duration,
    /// Minimum free space to maintain, in bytes.
    pub min_free_space: u64,
    /// Enable automatic cleanup.
    pub auto_cleanup: bool,
}

impl Default for StorageConfig {
    /// Ten GiB in all, recordings kept thirty days, one GiB kept free,
    /// automatic cleanup on.
    fn default() -> (r: Self)
        ensures
            r.max_total_size == 10 * 1024 * 1024 * 1024,
            r.max_age == duration_of_secs(2_592_000),
            r.min_free_space == 1024 * 1024 * 1024,
            r.auto_cleanup,
    {
        Self {
            max_total_size: 10 * 1024 * 1024 * 1024,
            max_age: duration_from_secs(2_592_000),
            min_free_space: 1024 * 1024 * 1024,
            auto_cleanup: true,
        }
    }
}

} // verus!

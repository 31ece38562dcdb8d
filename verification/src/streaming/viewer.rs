//! Viewers of a stream: registration with a limit, approval requests,
//! permissions, and status reports.

use vstd::prelude::*;
use vstd::utf8::{decode_utf8, encode_utf8, valid_utf8};
use std::time::{Duration, SystemTime};
use crate::clock::{elapsed_between, system_time_now, whole_secs};
use crate::security::identity::device::{take_vec, utf8_string};
use crate::security::peer_map::TextMap;
use crate::streaming::error::{StreamError, StreamResult};
use crate::streaming::types::{ConnectionQuality, StreamQuality, ViewerPermissions, ViewerStatus, default_quality};
use crate::streaming::{PeerId, ViewerId};
use crate::text::{append_str, append_string};
use crate::unique_id::{new_uuid, uuid_text};
use crate::streaming::SessionId;
use crate::text::{decimal, u64_to_decimal};

verus! {

/// The most viewers a stream serves at once.
pub const MAX_VIEWERS: usize = 10;

/// The state of a viewer.
#[derive(Clone, Copy, Debug, PartialEq, Eq, Structural)]
pub enum ViewerState {
    PendingApproval,
    Connected,
    Disconnected,
}

/// What the registry knows of a viewer.
pub ghost struct ViewerView {
    pub peer: Seq<char>,
    pub device_name: Seq<char>,
    pub permissions: ViewerPermissions,
    pub connection_quality: ConnectionQuality,
    pub bytes_sent: u64,
    pub current_quality: StreamQuality,
    pub state: ViewerState,
}

/// Whether the peer's text begins with eight bytes that form whole
/// characters (the device name is made from them).
pub open spec fn peer_prefix_ok(peer: Seq<char>) -> bool {
    encode_utf8(peer).len() >= 8 && valid_utf8(encode_utf8(peer).subrange(0, 8))
}

/// The device name of a peer: `Device-` and the peer's first eight bytes.
pub open spec fn device_name_for(peer: Seq<char>) -> Seq<char> {
    "Device-"@ + decode_utf8(encode_utf8(peer).subrange(0, 8))
}

/// A viewer just connected: good connection, nothing sent, default quality.
pub open spec fn fresh_viewer(peer: Seq<char>, permissions: ViewerPermissions) -> ViewerView {
    ViewerView {
        peer,
        device_name: device_name_for(peer),
        permissions,
        connection_quality: ConnectionQuality::Good,
        bytes_sent: 0,
        current_quality: default_quality(),
        state: ViewerState::Connected,
    }
}

/// Whether some viewer of `m` is the peer `p`.
pub open spec fn has_peer(m: Map<Seq<char>, ViewerView>, p: Seq<char>) -> bool {
    exists|k: Seq<char>| #[trigger] m.dom().contains(k) && m[k].peer == p
}

/// Internal viewer information.
#[derive(Debug)]
pub struct ViewerInfo {
    viewer_id: ViewerId,
    peer_id: PeerId,
    device_name: String,
    permissions: ViewerPermissions,
    connection_quality: ConnectionQuality,
    connected_at: SystemTime,
    bytes_sent: u64,
    current_quality: StreamQuality,
    state: ViewerState,
}

impl View for ViewerInfo {
    type V = ViewerView;

    closed spec fn view(&self) -> ViewerView {
        ViewerView {
            peer: self.peer_id@,
            device_name: self.device_name@,
            permissions: self.permissions,
            connection_quality: self.connection_quality,
            bytes_sent: self.bytes_sent,
            current_quality: self.current_quality,
            state: self.state,
        }
    }
}

impl Clone for ViewerInfo {
    fn clone(&self) -> (r: Self)
        ensures
            r@ == self@,
            r.id_view() == self.id_view(),
    {
        Self {
            viewer_id: self.viewer_id.clone(),
            peer_id: self.peer_id.clone(),
            device_name: self.device_name.clone(),
            permissions: self.permissions,
            connection_quality: self.connection_quality,
            connected_at: self.connected_at,
            bytes_sent: self.bytes_sent,
            current_quality: self.current_quality,
            state: self.state,
        }
    }
}

impl ViewerInfo {
    /// The viewer's identifier.
    pub closed spec fn id_view(&self) -> Seq<char> {
        self.viewer_id@
    }

    /// A new viewer for `peer_id` with a fresh identifier, connected now.
    fn new(peer_id: PeerId, permissions: ViewerPermissions) -> (r: Self)
        requires
            peer_prefix_ok(peer_id@),
        ensures
            r@ == fresh_viewer(peer_id@, permissions),
            r.id_view().len() == 36,
    {
        let prefix = take_vec(peer_id.as_str().as_bytes(), 0, 8);
        let device_name = match utf8_string(prefix) {
            Ok(p) => {
                let mut name = String::new();
                append_str(&mut name, "Device-");
                append_string(&mut name, &p);
                name
            },
            Err(_) => {
                proof {
                    assert(false);
                }
                String::new()
            },
        };
        Self {
            viewer_id: uuid_text(&new_uuid()),
            peer_id,
            device_name,
            permissions,
            connection_quality: ConnectionQuality::Good,
            connected_at: system_time_now(),
            bytes_sent: 0,
            current_quality: StreamQuality::default_quality(),
            state: ViewerState::Connected,
        }
    }

    /// The public status of this viewer.
    fn to_status(&self) -> (r: ViewerStatus)
        ensures
            status_of(r, self.id_view(), self@),
            r.connected_at == self.connected_at,
    {
        ViewerStatus {
            viewer_id: self.viewer_id.clone(),
            peer_id: self.peer_id.clone(),
            device_name: self.device_name.clone(),
            connection_quality: self.connection_quality,
            permissions: self.permissions,
            connected_at: self.connected_at,
            bytes_sent: self.bytes_sent,
            current_quality: self.current_quality,
        }
    }

    /// The viewer's identifier.
    pub fn viewer_id(&self) -> (r: &ViewerId)
        ensures
            r@ == self.id_view(),
    {
        &self.viewer_id
    }

    /// The viewer's permissions.
    pub fn permissions(&self) -> (r: ViewerPermissions)
        ensures
            r == self@.permissions,
    {
        self.permissions
    }
}

/// Whether `s` is the status of viewer `id` with view `v`.
pub open spec fn status_of(s: ViewerStatus, id: Seq<char>, v: ViewerView) -> bool {
    &&& s.viewer_id@ == id
    &&& s.peer_id@ == v.peer
    &&& s.device_name@ == v.device_name
    &&& s.connection_quality == v.connection_quality
    &&& s.permissions == v.permissions
    &&& s.bytes_sent == v.bytes_sent
    &&& s.current_quality == v.current_quality
}

/// The error for something about viewers.
fn viewer_error(msg: &str) -> (e: StreamError)
    ensures
        e matches StreamError::Viewer(_),
{
    StreamError::viewer(msg)
}

/// What adding viewer `peer` with `perms` does: refused when the limit is
/// reached, when the peer is already a viewer, or without view permission;
/// otherwise the viewer is kept under a new identifier and its pending
/// request, if any, is dropped.
pub open spec fn add_step(
    viewers: Map<Seq<char>, ViewerView>,
    pending: Map<Seq<char>, ViewerPermissions>,
    peer: Seq<char>,
    perms: ViewerPermissions,
    viewers_after: Map<Seq<char>, ViewerView>,
    pending_after: Map<Seq<char>, ViewerPermissions>,
    r: StreamResult<ViewerId>,
) -> bool {
    if viewers.dom().len() >= MAX_VIEWERS {
        &&& r matches Err(StreamError::Viewer(_))
        &&& viewers_after == viewers
        &&& pending_after == pending
    } else if has_peer(viewers, peer) {
        &&& r matches Err(StreamError::Viewer(_))
        &&& viewers_after == viewers
        &&& pending_after == pending
    } else if !perms.can_view {
        &&& r matches Err(StreamError::Permission(_))
        &&& viewers_after == viewers
        &&& pending_after == pending
    } else {
        &&& r matches Ok(id) && id@.len() == 36 && viewers_after == viewers.insert(id@, fresh_viewer(peer, perms))
        &&& pending_after == pending.remove(peer)
    }
}

/// Whether adding `peer` with `perms` gets as far as naming its device.
pub open spec fn add_reaches_naming(
    viewers: Map<Seq<char>, ViewerView>,
    peer: Seq<char>,
    perms: ViewerPermissions,
) -> bool {
    viewers.dom().len() < MAX_VIEWERS && !has_peer(viewers, peer) && perms.can_view
}

/// Viewer registry: the connected viewers by identifier, and the pending
/// requests by peer.
pub struct ViewerRegistry {
    viewers: TextMap<ViewerInfo>,
    pending_requests: TextMap<ViewerPermissions>,
}

impl ViewerRegistry {
    /// Every viewer is kept under its own identifier.
    #[verifier::type_invariant]
    closed spec fn keyed_by_id(&self) -> bool {
        forall|k: Seq<char>| #[trigger] self.viewers@.dom().contains(k) ==> self.viewers@[k].id_view() == k
    }

    /// The viewers, by identifier.
    pub closed spec fn viewers_view(&self) -> Map<Seq<char>, ViewerView> {
        Map::new(|k: Seq<char>| self.viewers@.dom().contains(k), |k: Seq<char>| self.viewers@[k]@)
    }

    /// The pending requests, by peer.
    pub closed spec fn pending_view(&self) -> Map<Seq<char>, ViewerPermissions> {
        self.pending_requests@
    }

    /// A registry without viewers or requests.
    pub fn new() -> (r: Self)
        ensures
            r.viewers_view() == Map::<Seq<char>, ViewerView>::empty(),
            r.pending_view() == Map::<Seq<char>, ViewerPermissions>::empty(),
    {
        let r = Self { viewers: TextMap::new(), pending_requests: TextMap::new() };
        assert(r.viewers_view() =~= Map::<Seq<char>, ViewerView>::empty());
        r
    }

    /// Keep `info` under its identifier.
    fn store(&mut self, info: ViewerInfo)
        ensures
            final(self).viewers_view() == old(self).viewers_view().insert(info.id_view(), info@),
            final(self).pending_view() == old(self).pending_view(),
    {
        proof {
            use_type_invariant(&*self);
        }
        let mut viewers: TextMap<ViewerInfo> = TextMap::new();
        std::mem::swap(&mut viewers, &mut self.viewers);
        let key = info.viewer_id.clone();
        let ghost v = info@;
        let ghost id = info.id_view();
        viewers.insert(key, info);
        assert(viewers@[id].id_view() == id);
        self.viewers = viewers;
        assert(self.viewers_view() =~= old(self).viewers_view().insert(key@, v));
    }

    /// Forget the viewer `id`.
    fn drop_viewer(&mut self, id: &ViewerId)
        ensures
            final(self).viewers_view() == old(self).viewers_view().remove(id@),
            final(self).pending_view() == old(self).pending_view(),
    {
        proof {
            use_type_invariant(&*self);
        }
        let mut viewers: TextMap<ViewerInfo> = TextMap::new();
        std::mem::swap(&mut viewers, &mut self.viewers);
        viewers.remove(id);
        self.viewers = viewers;
        assert(self.viewers_view() =~= old(self).viewers_view().remove(id@));
    }

    /// Record a pending request.
    fn put_pending(&mut self, peer_id: PeerId, permissions: ViewerPermissions)
        ensures
            final(self).viewers_view() == old(self).viewers_view(),
            final(self).pending_view() == old(self).pending_view().insert(peer_id@, permissions),
    {
        proof {
            use_type_invariant(&*self);
        }
        let mut pending: TextMap<ViewerPermissions> = TextMap::new();
        std::mem::swap(&mut pending, &mut self.pending_requests);
        pending.insert(peer_id, permissions);
        self.pending_requests = pending;
    }

    /// Drop the pending request of a peer, if any.
    fn drop_pending(&mut self, peer_id: &PeerId)
        ensures
            final(self).viewers_view() == old(self).viewers_view(),
            final(self).pending_view() == old(self).pending_view().remove(peer_id@),
    {
        proof {
            use_type_invariant(&*self);
        }
        let mut pending: TextMap<ViewerPermissions> = TextMap::new();
        std::mem::swap(&mut pending, &mut self.pending_requests);
        pending.remove(peer_id);
        self.pending_requests = pending;
    }

    /// A copy of the viewer `id`, if there is one.
    fn info_of(&self, id: &ViewerId) -> (r: Option<ViewerInfo>)
        ensures
            match r {
                Some(v) => self.viewers_view().dom().contains(id@) && v@ == self.viewers_view()[id@] && v.id_view() == id@,
                None => !self.viewers_view().dom().contains(id@),
            },
    {
        match self.viewers.get(id) {
            Some(v) => {
                proof {
                    use_type_invariant(self);
                }
                Some(v.clone())
            },
            None => None,
        }
    }

    /// The number of viewers, from the map.
    fn count(&self) -> (r: usize)
        ensures
            r == self.viewers_view().dom().len(),
    {
        let n = self.viewers.len();
        assert(self.viewers_view().dom() =~= self.viewers@.dom());
        n
    }

    /// Whether some viewer is the peer.
    fn peer_connected(&self, peer_id: &PeerId) -> (r: bool)
        ensures
            r == has_peer(self.viewers_view(), peer_id@),
    {
        let keys = self.viewers.text_keys();
        let mut i: usize = 0;
        while i < keys.len()
            invariant
                i <= keys@.len(),
                forall|k: Seq<char>| #[trigger] self.viewers@.dom().contains(k) ==> exists|j: int| 0 <= j < keys@.len() && keys@[j]@ == k,
                forall|j: int| 0 <= j < keys@.len() ==> self.viewers@.dom().contains(#[trigger] keys@[j]@),
                forall|j: int| 0 <= j < i ==> self.viewers@[#[trigger] keys@[j]@]@.peer != peer_id@,
            decreases keys@.len() - i,
        {
            match self.viewers.get(&keys[i]) {
                Some(v) => {
                    if v.peer_id == *peer_id {
                        assert(self.viewers_view().dom().contains(keys@[i as int]@));
                        return true;
                    }
                },
                None => {},
            }
            i = i + 1;
        }
        proof {
            assert forall|k: Seq<char>| #[trigger] self.viewers_view().dom().contains(k) implies self.viewers_view()[k].peer != peer_id@ by {
                let j = choose|j: int| 0 <= j < keys@.len() && keys@[j]@ == k;
                assert(self.viewers@[keys@[j]@]@.peer != peer_id@);
            }
        }
        false
    }

    /// Add a viewer (see `add_step`).
    pub fn add_viewer(&mut self, peer_id: PeerId, permissions: ViewerPermissions) -> (r: StreamResult<ViewerId>)
        requires
            add_reaches_naming(old(self).viewers_view(), peer_id@, permissions) ==> peer_prefix_ok(peer_id@),
        ensures
            add_step(
                old(self).viewers_view(),
                old(self).pending_view(),
                peer_id@,
                permissions,
                final(self).viewers_view(),
                final(self).pending_view(),
                r,
            ),
    {
        if self.count() >= MAX_VIEWERS {
            return Err(viewer_error("Maximum viewer limit (10) reached"));
        }
        if self.peer_connected(&peer_id) {
            return Err(viewer_error("Peer is already connected as a viewer"));
        }
        if !permissions.can_view {
            return Err(StreamError::permission("Viewer must have view permission enabled"));
        }
        let peer_key = peer_id.clone();
        let info = ViewerInfo::new(peer_id, permissions);
        let viewer_id = info.viewer_id.clone();
        self.store(info);
        self.drop_pending(&peer_key);
        Ok(viewer_id)
    }

    /// Remove a viewer; an error if there is no such viewer.
    pub fn remove_viewer(&mut self, viewer_id: ViewerId) -> (r: StreamResult<()>)
        ensures
            old(self).viewers_view().dom().contains(viewer_id@) ==> r is Ok && final(self).viewers_view()
                == old(self).viewers_view().remove(viewer_id@),
            !old(self).viewers_view().dom().contains(viewer_id@) ==> (r matches Err(StreamError::Viewer(_)))
                && final(self).viewers_view() == old(self).viewers_view(),
            final(self).pending_view() == old(self).pending_view(),
    {
        match self.info_of(&viewer_id) {
            Some(_) => {
                self.drop_viewer(&viewer_id);
                Ok(())
            },
            None => Err(viewer_error("Viewer not found")),
        }
    }

    /// The viewer `id`; an error if there is no such viewer.
    pub fn get_viewer(&self, viewer_id: ViewerId) -> (r: StreamResult<ViewerInfo>)
        ensures
            match r {
                Ok(v) => self.viewers_view().dom().contains(viewer_id@) && v@ == self.viewers_view()[viewer_id@]
                    && v.id_view() == viewer_id@,
                Err(e) => !self.viewers_view().dom().contains(viewer_id@) && e matches StreamError::Viewer(_),
            },
    {
        match self.info_of(&viewer_id) {
            Some(v) => Ok(v),
            None => Err(viewer_error("Viewer not found")),
        }
    }

    /// The status of every viewer, each once.
    pub fn get_all_viewer_status(&self) -> (r: StreamResult<Vec<ViewerStatus>>)
        ensures
            r matches Ok(v) && {
                &&& v@.len() == self.viewers_view().dom().len()
                &&& forall|i: int|
                    0 <= i < v@.len() ==> self.viewers_view().dom().contains(#[trigger] v@[i].viewer_id@) && status_of(
                        v@[i],
                        v@[i].viewer_id@,
                        self.viewers_view()[v@[i].viewer_id@],
                    )
                &&& forall|k: Seq<char>|
                    #[trigger] self.viewers_view().dom().contains(k) ==> exists|i: int| 0 <= i < v@.len() && v@[i].viewer_id@ == k
            },
    {
        proof {
            use_type_invariant(self);
        }
        let keys = self.viewers.text_keys();
        let mut out: Vec<ViewerStatus> = Vec::new();
        let mut i: usize = 0;
        while i < keys.len()
            invariant
                i <= keys@.len(),
                keys@.len() == self.viewers@.dom().len(),
                self.keyed_by_id(),
                forall|k: Seq<char>| #[trigger] self.viewers@.dom().contains(k) ==> exists|j: int| 0 <= j < keys@.len() && keys@[j]@ == k,
                forall|j: int| 0 <= j < keys@.len() ==> self.viewers@.dom().contains(#[trigger] keys@[j]@),
                out@.len() == i,
                forall|j: int| 0 <= j < i ==> (#[trigger] out@[j]).viewer_id@ == keys@[j]@,
                forall|j: int|
                    0 <= j < i ==> status_of(#[trigger] out@[j], keys@[j]@, self.viewers@[keys@[j]@]@),
            decreases keys@.len() - i,
        {
            match self.viewers.get(&keys[i]) {
                Some(v) => {
                    let st = v.to_status();
                    out.push(st);
                },
                None => {
                    proof {
                        assert(self.viewers@.dom().contains(keys@[i as int]@));
                    }
                    return Ok(out);
                },
            }
            i = i + 1;
        }
        proof {
            assert(self.viewers_view().dom() =~= self.viewers@.dom());
            assert forall|k: Seq<char>| #[trigger] self.viewers_view().dom().contains(k) implies exists|j: int|
                0 <= j < out@.len() && out@[j].viewer_id@ == k by {
                let j = choose|j: int| 0 <= j < keys@.len() && keys@[j]@ == k;
                assert(out@[j].viewer_id@ == k);
            }
        }
        Ok(out)
    }

    /// The number of viewers.
    pub fn viewer_count(&self) -> (r: usize)
        ensures
            r == self.viewers_view().dom().len(),
    {
        self.count()
    }

    /// Whether there is a viewer `id`.
    pub fn has_viewer(&self, viewer_id: ViewerId) -> (r: bool)
        ensures
            r == self.viewers_view().dom().contains(viewer_id@),
    {
        self.info_of(&viewer_id).is_some()
    }

    /// Set the connection quality of a viewer; an error if there is no such viewer.
    pub fn set_connection_quality(&mut self, viewer_id: ViewerId, quality: ConnectionQuality) -> (r: StreamResult<()>)
        ensures
            updates_viewer(
                old(self).viewers_view(),
                viewer_id@,
                final(self).viewers_view(),
                r,
                |v: ViewerView| ViewerView { connection_quality: quality, ..v },
            ),
            final(self).pending_view() == old(self).pending_view(),
    {
        match self.info_of(&viewer_id) {
            Some(mut v) => {
                v.connection_quality = quality;
                self.store(v);
                Ok(())
            },
            None => Err(viewer_error("Viewer not found")),
        }
    }

    /// Count bytes sent to a viewer (saturating); an error if there is no such viewer.
    pub fn add_bytes_sent(&mut self, viewer_id: ViewerId, bytes: u64) -> (r: StreamResult<()>)
        ensures
            updates_viewer(
                old(self).viewers_view(),
                viewer_id@,
                final(self).viewers_view(),
                r,
                |v: ViewerView|
                    ViewerView {
                        bytes_sent: (if v.bytes_sent + bytes > u64::MAX { u64::MAX as int } else { v.bytes_sent + bytes }) as u64,
                        ..v
                    },
            ),
            final(self).pending_view() == old(self).pending_view(),
    {
        match self.info_of(&viewer_id) {
            Some(mut v) => {
                v.bytes_sent = v.bytes_sent.saturating_add(bytes);
                self.store(v);
                Ok(())
            },
            None => Err(viewer_error("Viewer not found")),
        }
    }

    /// Set the stream quality of a viewer; an error if there is no such viewer.
    pub fn set_viewer_quality(&mut self, viewer_id: ViewerId, quality: StreamQuality) -> (r: StreamResult<()>)
        ensures
            updates_viewer(
                old(self).viewers_view(),
                viewer_id@,
                final(self).viewers_view(),
                r,
                |v: ViewerView| ViewerView { current_quality: quality, ..v },
            ),
            final(self).pending_view() == old(self).pending_view(),
    {
        match self.info_of(&viewer_id) {
            Some(mut v) => {
                v.current_quality = quality;
                self.store(v);
                Ok(())
            },
            None => Err(viewer_error("Viewer not found")),
        }
    }

    /// Set the permissions of a viewer; an error if there is no such viewer.
    pub fn set_viewer_permissions(&mut self, viewer_id: ViewerId, permissions: ViewerPermissions) -> (r: StreamResult<()>)
        ensures
            updates_viewer(
                old(self).viewers_view(),
                viewer_id@,
                final(self).viewers_view(),
                r,
                |v: ViewerView| ViewerView { permissions, ..v },
            ),
            final(self).pending_view() == old(self).pending_view(),
    {
        match self.info_of(&viewer_id) {
            Some(mut v) => {
                v.permissions = permissions;
                self.store(v);
                Ok(())
            },
            None => Err(viewer_error("Viewer not found")),
        }
    }

    /// Ask for access as a viewer: refused when the peer already has a
    /// pending request or is connected; otherwise the request is kept.
    pub fn request_viewer_access(&mut self, peer_id: PeerId, permissions: ViewerPermissions) -> (r: StreamResult<()>)
        ensures
            final(self).viewers_view() == old(self).viewers_view(),
            if old(self).pending_view().dom().contains(peer_id@) || has_peer(old(self).viewers_view(), peer_id@) {
                (r matches Err(StreamError::Viewer(_))) && final(self).pending_view() == old(self).pending_view()
            } else {
                r is Ok && final(self).pending_view() == old(self).pending_view().insert(peer_id@, permissions)
            },
    {
        if self.pending_requests.contains_key(&peer_id) {
            return Err(viewer_error("Viewer request is already pending"));
        }
        if self.peer_connected(&peer_id) {
            return Err(viewer_error("Peer is already connected"));
        }
        self.put_pending(peer_id, permissions);
        Ok(())
    }

    /// Approve the pending request of a peer: an error without one;
    /// otherwise the peer is added with the permissions it asked for.
    pub fn approve_viewer_request(&mut self, peer_id: PeerId) -> (r: StreamResult<ViewerId>)
        requires
            old(self).pending_view().dom().contains(peer_id@) && add_reaches_naming(
                old(self).viewers_view(),
                peer_id@,
                old(self).pending_view()[peer_id@],
            ) ==> peer_prefix_ok(peer_id@),
        ensures
            !old(self).pending_view().dom().contains(peer_id@) ==> (r matches Err(StreamError::Viewer(_)))
                && final(self).viewers_view() == old(self).viewers_view() && final(self).pending_view()
                == old(self).pending_view(),
            old(self).pending_view().dom().contains(peer_id@) ==> add_step(
                old(self).viewers_view(),
                old(self).pending_view(),
                peer_id@,
                old(self).pending_view()[peer_id@],
                final(self).viewers_view(),
                final(self).pending_view(),
                r,
            ),
    {
        let permissions = match self.pending_requests.get(&peer_id) {
            Some(p) => *p,
            None => return Err(viewer_error("No pending request from this peer")),
        };
        self.add_viewer(peer_id, permissions)
    }

    /// Drop the pending request of a peer; an error without one.
    pub fn reject_viewer_request(&mut self, peer_id: PeerId) -> (r: StreamResult<()>)
        ensures
            final(self).viewers_view() == old(self).viewers_view(),
            old(self).pending_view().dom().contains(peer_id@) ==> r is Ok && final(self).pending_view()
                == old(self).pending_view().remove(peer_id@),
            !old(self).pending_view().dom().contains(peer_id@) ==> (r matches Err(StreamError::Viewer(_)))
                && final(self).pending_view() == old(self).pending_view(),
    {
        if !self.pending_requests.contains_key(&peer_id) {
            return Err(viewer_error("No pending request from this peer"));
        }
        self.drop_pending(&peer_id);
        Ok(())
    }

    /// The pending requests, each once.
    pub fn get_pending_requests(&self) -> (r: StreamResult<Vec<(PeerId, ViewerPermissions)>>)
        ensures
            r matches Ok(v) && {
                &&& v@.len() == self.pending_view().dom().len()
                &&& forall|i: int|
                    0 <= i < v@.len() ==> self.pending_view().dom().contains(#[trigger] v@[i].0@) && v@[i].1
                        == self.pending_view()[v@[i].0@]
                &&& forall|k: Seq<char>|
                    #[trigger] self.pending_view().dom().contains(k) ==> exists|i: int| 0 <= i < v@.len() && v@[i].0@ == k
            },
    {
        let keys = self.pending_requests.text_keys();
        let mut out: Vec<(PeerId, ViewerPermissions)> = Vec::new();
        let mut i: usize = 0;
        while i < keys.len()
            invariant
                i <= keys@.len(),
                keys@.len() == self.pending_view().dom().len(),
                forall|k: Seq<char>| #[trigger] self.pending_view().dom().contains(k) ==> exists|j: int| 0 <= j < keys@.len() && keys@[j]@ == k,
                forall|j: int| 0 <= j < keys@.len() ==> self.pending_view().dom().contains(#[trigger] keys@[j]@),
                out@.len() == i,
                forall|j: int| 0 <= j < i ==> (#[trigger] out@[j]).0@ == keys@[j]@ && out@[j].1 == self.pending_view()[keys@[j]@],
            decreases keys@.len() - i,
        {
            match self.pending_requests.get(&keys[i]) {
                Some(p) => {
                    out.push((keys[i].clone(), *p));
                },
                None => {
                    proof {
                        assert(self.pending_view().dom().contains(keys@[i as int]@));
                    }
                    return Ok(out);
                },
            }
            i = i + 1;
        }
        proof {
            assert forall|k: Seq<char>| #[trigger] self.pending_view().dom().contains(k) implies exists|j: int|
                0 <= j < out@.len() && out@[j].0@ == k by {
                let j = choose|j: int| 0 <= j < keys@.len() && keys@[j]@ == k;
                assert(out@[j].0@ == k);
            }
        }
        Ok(out)
    }

    /// The identifiers of the viewers, each once.
    pub fn get_viewer_ids(&self) -> (r: Vec<ViewerId>)
        ensures
            r@.len() == self.viewers_view().dom().len(),
            forall|i: int| 0 <= i < r@.len() ==> self.viewers_view().dom().contains(#[trigger] r@[i]@),
            forall|k: Seq<char>| #[trigger] self.viewers_view().dom().contains(k) ==> exists|i: int| 0 <= i < r@.len() && r@[i]@ == k,
    {
        let r = self.viewers.text_keys();
        assert(self.viewers_view().dom() =~= self.viewers@.dom());
        r
    }

    /// Apply a check to the permissions of a viewer; an error if there is no such viewer.
    pub fn check_permission<F: Fn(&ViewerPermissions) -> bool>(&self, viewer_id: ViewerId, check: F) -> (r: StreamResult<bool>)
        requires
            forall|p: ViewerPermissions| #[trigger] check.requires((&p,)),
        ensures
            match r {
                Ok(b) => self.viewers_view().dom().contains(viewer_id@) && check.ensures(
                    (&self.viewers_view()[viewer_id@].permissions,),
                    b,
                ),
                Err(e) => !self.viewers_view().dom().contains(viewer_id@) && e matches StreamError::Viewer(_),
            },
    {
        match self.info_of(&viewer_id) {
            Some(v) => {
                let p = v.permissions;
                Ok(check(&p))
            },
            None => Err(viewer_error("Viewer not found")),
        }
    }
}

impl ViewerInfo {
    /// When the viewer connected.
    pub closed spec fn connected_view(&self) -> SystemTime {
        self.connected_at
    }

    /// When the viewer connected.
    pub fn connected_at(&self) -> (r: SystemTime)
        ensures
            r == self.connected_view(),
    {
        self.connected_at
    }

    /// The public status of this viewer.
    pub fn status(&self) -> (r: ViewerStatus)
        ensures
            status_of(r, self.id_view(), self@),
            r.connected_at == self.connected_view(),
    {
        self.to_status()
    }
}

/// Result of a viewer connection attempt.
#[derive(Debug)]
pub enum ViewerConnectionResult {
    /// Viewer connected successfully.
    Connected(ViewerId),
    /// Connection pending approval.
    PendingApproval,
    /// Connection rejected, with the reason.
    Rejected(String),
}

/// Detailed viewer status report.
#[derive(Debug)]
pub struct ViewerStatusReport {
    pub status: ViewerStatus,
    pub connection_duration: Duration,
    pub average_bitrate: u64,
    pub is_healthy: bool,
}

/// Whether a viewer's connection counts as healthy: neither poor nor gone.
pub open spec fn healthy(q: ConnectionQuality) -> bool {
    q != ConnectionQuality::Poor && q != ConnectionQuality::Disconnected
}

/// The average bitrate of `bytes` sent over `secs` seconds (zero for no time).
pub open spec fn average_bitrate(bytes: u64, secs: u64) -> int {
    if secs > 0 {
        (bytes * 8) / (secs as int)
    } else {
        0
    }
}

/// Whether every viewer's byte count can be turned into bits.
pub open spec fn bits_fit(m: Map<Seq<char>, ViewerView>) -> bool {
    forall|k: Seq<char>| #[trigger] m.dom().contains(k) ==> m[k].bytes_sent * 8 <= u64::MAX
}

/// Viewer management: connections, permissions and status reports over a registry.
pub struct ViewerManagementControls {
    registry: ViewerRegistry,
}

impl ViewerManagementControls {
    /// The viewers, by identifier.
    pub closed spec fn viewers_view(&self) -> Map<Seq<char>, ViewerView> {
        self.registry.viewers_view()
    }

    /// The pending requests, by peer.
    pub closed spec fn pending_view(&self) -> Map<Seq<char>, ViewerPermissions> {
        self.registry.pending_view()
    }

    /// Controls over a registry.
    pub fn new(registry: ViewerRegistry) -> (r: Self)
        ensures
            r.viewers_view() == registry.viewers_view(),
            r.pending_view() == registry.pending_view(),
    {
        Self { registry }
    }

    /// The registry.
    pub fn registry(&self) -> (r: &ViewerRegistry)
        ensures
            r.viewers_view() == self.viewers_view(),
            r.pending_view() == self.pending_view(),
    {
        &self.registry
    }

    /// Handle a connecting viewer: rejected (as a result) when the limit is
    /// reached or without view permission; put among the pending requests
    /// when approval is required; otherwise added.
    pub fn handle_viewer_connection(
        &mut self,
        peer_id: PeerId,
        permissions: ViewerPermissions,
        require_approval: bool,
    ) -> (r: StreamResult<ViewerConnectionResult>)
        requires
            !require_approval && add_reaches_naming(old(self).viewers_view(), peer_id@, permissions) ==> peer_prefix_ok(
                peer_id@,
            ),
        ensures
            ({
                let v0 = old(self).viewers_view();
                let p0 = old(self).pending_view();
                if v0.dom().len() >= MAX_VIEWERS || !permissions.can_view {
                    &&& r matches Ok(ViewerConnectionResult::Rejected(_))
                    &&& final(self).viewers_view() == v0
                    &&& final(self).pending_view() == p0
                } else if require_approval {
                    &&& final(self).viewers_view() == v0
                    &&& if p0.dom().contains(peer_id@) || has_peer(v0, peer_id@) {
                        (r matches Err(StreamError::Viewer(_))) && final(self).pending_view() == p0
                    } else {
                        (r matches Ok(ViewerConnectionResult::PendingApproval)) && final(self).pending_view()
                            == p0.insert(peer_id@, permissions)
                    }
                } else if has_peer(v0, peer_id@) {
                    &&& r matches Err(StreamError::Viewer(_))
                    &&& final(self).viewers_view() == v0
                    &&& final(self).pending_view() == p0
                } else {
                    &&& r matches Ok(ViewerConnectionResult::Connected(id)) && id@.len() == 36
                        && final(self).viewers_view() == v0.insert(id@, fresh_viewer(peer_id@, permissions))
                    &&& final(self).pending_view() == p0.remove(peer_id@)
                }
            }),
    {
        if self.registry.viewer_count() >= MAX_VIEWERS {
            let mut msg = String::new();
            append_str(&mut msg, "Maximum viewer limit (10) reached");
            return Ok(ViewerConnectionResult::Rejected(msg));
        }
        if !permissions.can_view {
            let mut msg = String::new();
            append_str(&mut msg, "View permission is required");
            return Ok(ViewerConnectionResult::Rejected(msg));
        }
        if require_approval {
            match self.registry.request_viewer_access(peer_id, permissions) {
                Ok(()) => {},
                Err(e) => return Err(e),
            }
            return Ok(ViewerConnectionResult::PendingApproval);
        }
        match self.registry.add_viewer(peer_id, permissions) {
            Ok(id) => Ok(ViewerConnectionResult::Connected(id)),
            Err(e) => Err(e),
        }
    }

    /// Handle a viewer leaving: it is removed; an error if there is no such viewer.
    pub fn handle_viewer_disconnection(&mut self, viewer_id: ViewerId) -> (r: StreamResult<()>)
        ensures
            old(self).viewers_view().dom().contains(viewer_id@) ==> r is Ok && final(self).viewers_view()
                == old(self).viewers_view().remove(viewer_id@),
            !old(self).viewers_view().dom().contains(viewer_id@) ==> (r matches Err(StreamError::Viewer(_)))
                && final(self).viewers_view() == old(self).viewers_view(),
            final(self).pending_view() == old(self).pending_view(),
    {
        self.registry.remove_viewer(viewer_id)
    }

    /// Replace the permissions of a viewer; an error if there is no such viewer.
    pub fn update_viewer_permissions(&mut self, viewer_id: ViewerId, permissions: ViewerPermissions) -> (r: StreamResult<()>)
        ensures
            updates_viewer(
                old(self).viewers_view(),
                viewer_id@,
                final(self).viewers_view(),
                r,
                |v: ViewerView| ViewerView { permissions, ..v },
            ),
            final(self).pending_view() == old(self).pending_view(),
    {
        self.registry.set_viewer_permissions(viewer_id, permissions)
    }

    /// Set one permission flag of a viewer.
    fn set_flag(&mut self, viewer_id: ViewerId, record: bool, on: bool) -> (r: StreamResult<()>)
        ensures
            updates_viewer(
                old(self).viewers_view(),
                viewer_id@,
                final(self).viewers_view(),
                r,
                |v: ViewerView|
                    ViewerView {
                        permissions: if record {
                            ViewerPermissions { can_record: on, ..v.permissions }
                        } else {
                            ViewerPermissions { can_control_quality: on, ..v.permissions }
                        },
                        ..v
                    },
            ),
            final(self).pending_view() == old(self).pending_view(),
    {
        let id = viewer_id.clone();
        let viewer = match self.registry.get_viewer(viewer_id) {
            Ok(v) => v,
            Err(e) => return Err(e),
        };
        let mut permissions = viewer.permissions();
        if record {
            permissions.can_record = on;
        } else {
            permissions.can_control_quality = on;
        }
        self.update_viewer_permissions(id, permissions)
    }

    /// Allow a viewer to record; an error if there is no such viewer.
    pub fn grant_recording_permission(&mut self, viewer_id: ViewerId) -> (r: StreamResult<()>)
        ensures
            updates_viewer(
                old(self).viewers_view(),
                viewer_id@,
                final(self).viewers_view(),
                r,
                |v: ViewerView| ViewerView { permissions: ViewerPermissions { can_record: true, ..v.permissions }, ..v },
            ),
            final(self).pending_view() == old(self).pending_view(),
    {
        self.set_flag(viewer_id, true, true)
    }

    /// Forbid a viewer to record; an error if there is no such viewer.
    pub fn revoke_recording_permission(&mut self, viewer_id: ViewerId) -> (r: StreamResult<()>)
        ensures
            updates_viewer(
                old(self).viewers_view(),
                viewer_id@,
                final(self).viewers_view(),
                r,
                |v: ViewerView| ViewerView { permissions: ViewerPermissions { can_record: false, ..v.permissions }, ..v },
            ),
            final(self).pending_view() == old(self).pending_view(),
    {
        self.set_flag(viewer_id, true, false)
    }

    /// Allow a viewer to control quality; an error if there is no such viewer.
    pub fn grant_quality_control(&mut self, viewer_id: ViewerId) -> (r: StreamResult<()>)
        ensures
            updates_viewer(
                old(self).viewers_view(),
                viewer_id@,
                final(self).viewers_view(),
                r,
                |v: ViewerView|
                    ViewerView { permissions: ViewerPermissions { can_control_quality: true, ..v.permissions }, ..v },
            ),
            final(self).pending_view() == old(self).pending_view(),
    {
        self.set_flag(viewer_id, false, true)
    }

    /// Forbid a viewer to control quality; an error if there is no such viewer.
    pub fn revoke_quality_control(&mut self, viewer_id: ViewerId) -> (r: StreamResult<()>)
        ensures
            updates_viewer(
                old(self).viewers_view(),
                viewer_id@,
                final(self).viewers_view(),
                r,
                |v: ViewerView|
                    ViewerView { permissions: ViewerPermissions { can_control_quality: false, ..v.permissions }, ..v },
            ),
            final(self).pending_view() == old(self).pending_view(),
    {
        self.set_flag(viewer_id, false, false)
    }

    /// The status report of a viewer connected for `connection_duration`,
    /// `elapsed_secs` whole seconds; an error if there is no such viewer.
    pub fn get_viewer_status_report_with(
        &self,
        viewer_id: ViewerId,
        connection_duration: Duration,
        elapsed_secs: u64,
    ) -> (r: StreamResult<ViewerStatusReport>)
        requires
            bits_fit(self.viewers_view()),
        ensures
            match r {
                Ok(rep) => self.viewers_view().dom().contains(viewer_id@) && ({
                    let v = self.viewers_view()[viewer_id@];
                    &&& status_of(rep.status, viewer_id@, v)
                    &&& rep.connection_duration == connection_duration
                    &&& rep.average_bitrate == average_bitrate(v.bytes_sent, elapsed_secs)
                    &&& rep.is_healthy == healthy(v.connection_quality)
                }),
                Err(e) => !self.viewers_view().dom().contains(viewer_id@) && e matches StreamError::Viewer(_),
            },
    {
        let viewer = match self.registry.get_viewer(viewer_id) {
            Ok(v) => v,
            Err(e) => return Err(e),
        };
        let status = viewer.status();
        let bytes = status.bytes_sent;
        let average = if elapsed_secs > 0 {
            (bytes * 8) / elapsed_secs
        } else {
            0
        };
        let q = status.connection_quality;
        let is_healthy = q != ConnectionQuality::Poor && q != ConnectionQuality::Disconnected;
        Ok(ViewerStatusReport { status, connection_duration, average_bitrate: average, is_healthy })
    }

    /// The status report of a viewer, as of now; an error if there is no such viewer.
    pub fn get_viewer_status_report(&self, viewer_id: ViewerId) -> (r: StreamResult<ViewerStatusReport>)
        requires
            bits_fit(self.viewers_view()),
        ensures
            match r {
                Ok(rep) => self.viewers_view().dom().contains(viewer_id@) && ({
                    let v = self.viewers_view()[viewer_id@];
                    &&& status_of(rep.status, viewer_id@, v)
                    &&& exists|secs: u64| rep.average_bitrate == #[trigger] average_bitrate(v.bytes_sent, secs)
                    &&& rep.is_healthy == healthy(v.connection_quality)
                }),
                Err(e) => !self.viewers_view().dom().contains(viewer_id@) && e matches StreamError::Viewer(_),
            },
    {
        let id = viewer_id.clone();
        let viewer = match self.registry.get_viewer(viewer_id) {
            Ok(v) => v,
            Err(e) => return Err(e),
        };
        let now = system_time_now();
        let duration = elapsed_between(now, viewer.connected_at());
        let secs = whole_secs(duration);
        self.get_viewer_status_report_with(id, duration, secs)
    }

    /// The status reports of all viewers, as of now.
    pub fn get_all_status_reports(&self) -> (r: StreamResult<Vec<ViewerStatusReport>>)
        requires
            bits_fit(self.viewers_view()),
        ensures
            r matches Ok(v) && v@.len() == self.viewers_view().dom().len() && forall|i: int|
                0 <= i < v@.len() ==> self.viewers_view().dom().contains(#[trigger] v@[i].status.viewer_id@),
    {
        let ids = self.registry.get_viewer_ids();
        let mut reports: Vec<ViewerStatusReport> = Vec::new();
        let mut i: usize = 0;
        while i < ids.len()
            invariant
                i <= ids@.len(),
                bits_fit(self.viewers_view()),
                ids@.len() == self.viewers_view().dom().len(),
                forall|j: int| 0 <= j < ids@.len() ==> self.viewers_view().dom().contains(#[trigger] ids@[j]@),
                reports@.len() == i,
                forall|j: int| 0 <= j < i ==> self.viewers_view().dom().contains(#[trigger] reports@[j].status.viewer_id@),
            decreases ids@.len() - i,
        {
            let id = ids[i].clone();
            match self.get_viewer_status_report(id.clone()) {
                Ok(rep) => {
                    assert(status_of(rep.status, id@, self.viewers_view()[id@]));
                    assert(self.viewers_view().dom().contains(rep.status.viewer_id@));
                    let ghost before = reports@;
                    let ghost g = rep;
                    reports.push(rep);
                    proof {
                        assert forall|j: int| 0 <= j < i + 1 implies self.viewers_view().dom().contains(
                            #[trigger] reports@[j].status.viewer_id@,
                        ) by {
                            if j < i {
                                assert(reports@[j] == before[j]);
                                assert(self.viewers_view().dom().contains(before[j].status.viewer_id@));
                            } else {
                                assert(reports@[j] == g);
                            }
                        }
                    }
                },
                Err(_) => {
                    proof {
                        assert(self.viewers_view().dom().contains(ids@[i as int]@));
                    }
                    return Ok(reports);
                },
            }
            i = i + 1;
        }
        Ok(reports)
    }

    /// Force a viewer off; an error if there is no such viewer.
    pub fn kick_viewer(&mut self, viewer_id: ViewerId, reason: String) -> (r: StreamResult<()>)
        ensures
            old(self).viewers_view().dom().contains(viewer_id@) ==> r is Ok && final(self).viewers_view()
                == old(self).viewers_view().remove(viewer_id@),
            !old(self).viewers_view().dom().contains(viewer_id@) ==> (r matches Err(StreamError::Viewer(_)))
                && final(self).viewers_view() == old(self).viewers_view(),
            final(self).pending_view() == old(self).pending_view(),
    {
        self.registry.remove_viewer(viewer_id)
    }

    /// The viewers whose connection is poor or gone, each once.
    pub fn get_poor_connection_viewers(&self) -> (r: StreamResult<Vec<ViewerId>>)
        ensures
            r matches Ok(v) && {
                &&& forall|i: int|
                    0 <= i < v@.len() ==> self.viewers_view().dom().contains(#[trigger] v@[i]@) && !healthy(
                        self.viewers_view()[v@[i]@].connection_quality,
                    )
                &&& forall|k: Seq<char>|
                    #[trigger] self.viewers_view().dom().contains(k) && !healthy(self.viewers_view()[k].connection_quality)
                        ==> exists|i: int| 0 <= i < v@.len() && v@[i]@ == k
            },
    {
        let statuses = match self.registry.get_all_viewer_status() {
            Ok(s) => s,
            Err(e) => return Err(e),
        };
        let mut out: Vec<ViewerId> = Vec::new();
        let mut i: usize = 0;
        while i < statuses.len()
            invariant
                i <= statuses@.len(),
                forall|j: int|
                    0 <= j < statuses@.len() ==> self.viewers_view().dom().contains(#[trigger] statuses@[j].viewer_id@)
                        && status_of(statuses@[j], statuses@[j].viewer_id@, self.viewers_view()[statuses@[j].viewer_id@]),
                forall|k: Seq<char>|
                    #[trigger] self.viewers_view().dom().contains(k) ==> exists|j: int| 0 <= j < statuses@.len() && statuses@[j].viewer_id@ == k,
                forall|j: int|
                    0 <= j < out@.len() ==> self.viewers_view().dom().contains(#[trigger] out@[j]@) && !healthy(
                        self.viewers_view()[out@[j]@].connection_quality,
                    ),
                forall|j: int|
                    0 <= j < i && !healthy(#[trigger] statuses@[j].connection_quality) ==> exists|m: int|
                        0 <= m < out@.len() && out@[m]@ == statuses@[j].viewer_id@,
            decreases statuses@.len() - i,
        {
            let q = statuses[i].connection_quality;
            if q == ConnectionQuality::Poor || q == ConnectionQuality::Disconnected {
                let ghost before = out@;
                out.push(statuses[i].viewer_id.clone());
                proof {
                    assert forall|j: int|
                        0 <= j < i + 1 && !healthy(#[trigger] statuses@[j].connection_quality) implies exists|m: int|
                        0 <= m < out@.len() && out@[m]@ == statuses@[j].viewer_id@ by {
                        if j == i {
                            assert(out@[before.len() as int]@ == statuses@[j].viewer_id@);
                        } else {
                            let m = choose|m: int| 0 <= m < before.len() && before[m]@ == statuses@[j].viewer_id@;
                            assert(out@[m] == before[m]);
                        }
                    }
                }
            }
            i = i + 1;
        }
        proof {
            assert forall|k: Seq<char>|
                #[trigger] self.viewers_view().dom().contains(k) && !healthy(self.viewers_view()[k].connection_quality)
                    implies exists|i: int| 0 <= i < out@.len() && out@[i]@ == k by {
                let j = choose|j: int| 0 <= j < statuses@.len() && statuses@[j].viewer_id@ == k;
                assert(!healthy(statuses@[j].connection_quality));
            }
        }
        Ok(out)
    }

    /// The number of viewers.
    pub fn get_viewer_count(&self) -> (r: usize)
        ensures
            r == self.viewers_view().dom().len(),
    {
        self.registry.viewer_count()
    }

    /// Whether the viewer limit is reached.
    pub fn is_viewer_limit_reached(&self) -> (r: bool)
        ensures
            r == (self.viewers_view().dom().len() >= MAX_VIEWERS),
    {
        self.registry.viewer_count() >= MAX_VIEWERS
    }

    /// The pending requests, each once, stamped with the current time.
    pub fn get_pending_approvals(&self) -> (r: StreamResult<Vec<PendingApproval>>)
        ensures
            r matches Ok(v) && {
                &&& v@.len() == self.pending_view().dom().len()
                &&& forall|i: int|
                    0 <= i < v@.len() ==> self.pending_view().dom().contains(#[trigger] v@[i].peer_id@)
                        && v@[i].permissions == self.pending_view()[v@[i].peer_id@]
            },
    {
        let pending = match self.registry.get_pending_requests() {
            Ok(p) => p,
            Err(e) => return Err(e),
        };
        let mut out: Vec<PendingApproval> = Vec::new();
        let mut i: usize = 0;
        while i < pending.len()
            invariant
                i <= pending@.len(),
                pending@.len() == self.pending_view().dom().len(),
                forall|j: int|
                    0 <= j < pending@.len() ==> self.pending_view().dom().contains(#[trigger] pending@[j].0@)
                        && pending@[j].1 == self.pending_view()[pending@[j].0@],
                out@.len() == i,
                forall|j: int| 0 <= j < i ==> (#[trigger] out@[j]).peer_id@ == pending@[j].0@ && out@[j].permissions == pending@[j].1,
            decreases pending@.len() - i,
        {
            let (peer_id, permissions) = (pending[i].0.clone(), pending[i].1);
            out.push(PendingApproval { peer_id, permissions, requested_at: system_time_now() });
            i = i + 1;
        }
        Ok(out)
    }

    /// Approve the pending request of a peer (see `ViewerRegistry::approve_viewer_request`).
    pub fn approve_pending_viewer(&mut self, peer_id: PeerId) -> (r: StreamResult<ViewerId>)
        requires
            old(self).pending_view().dom().contains(peer_id@) && add_reaches_naming(
                old(self).viewers_view(),
                peer_id@,
                old(self).pending_view()[peer_id@],
            ) ==> peer_prefix_ok(peer_id@),
        ensures
            !old(self).pending_view().dom().contains(peer_id@) ==> (r matches Err(StreamError::Viewer(_)))
                && final(self).viewers_view() == old(self).viewers_view() && final(self).pending_view()
                == old(self).pending_view(),
            old(self).pending_view().dom().contains(peer_id@) ==> add_step(
                old(self).viewers_view(),
                old(self).pending_view(),
                peer_id@,
                old(self).pending_view()[peer_id@],
                final(self).viewers_view(),
                final(self).pending_view(),
                r,
            ),
    {
        self.registry.approve_viewer_request(peer_id)
    }

    /// Reject the pending request of a peer; an error without one.
    pub fn reject_pending_viewer(&mut self, peer_id: PeerId, reason: String) -> (r: StreamResult<()>)
        ensures
            final(self).viewers_view() == old(self).viewers_view(),
            old(self).pending_view().dom().contains(peer_id@) ==> r is Ok && final(self).pending_view()
                == old(self).pending_view().remove(peer_id@),
            !old(self).pending_view().dom().contains(peer_id@) ==> (r matches Err(StreamError::Viewer(_)))
                && final(self).pending_view() == old(self).pending_view(),
    {
        self.registry.reject_viewer_request(peer_id)
    }
}

/// A viewer waiting for approval.
#[derive(Debug)]
pub struct PendingApproval {
    pub peer_id: PeerId,
    pub permissions: ViewerPermissions,
    pub requested_at: SystemTime,
}

impl Clone for PendingApproval {
    fn clone(&self) -> (r: Self)
        ensures
            r == *self,
    {
        Self { peer_id: self.peer_id.clone(), permissions: self.permissions, requested_at: self.requested_at }
    }
}

/// Whether changing viewer `id` by `f` went as stated: an error and no
/// change when there is no such viewer, otherwise the viewer is changed.
pub open spec fn updates_viewer(
    before: Map<Seq<char>, ViewerView>,
    id: Seq<char>,
    after: Map<Seq<char>, ViewerView>,
    r: StreamResult<()>,
    f: spec_fn(ViewerView) -> ViewerView,
) -> bool {
    if before.dom().contains(id) {
        r is Ok && after == before.insert(id, f(before[id]))
    } else {
        (r matches Err(StreamError::Viewer(_))) && after == before
    }
}

impl Default for ViewerRegistry {
    fn default() -> (r: Self)
        ensures
            r.viewers_view() == Map::<Seq<char>, ViewerView>::empty(),
            r.pending_view() == Map::<Seq<char>, ViewerPermissions>::empty(),
    {
        Self::new()
    }
}

/// The refusal of a broadcast to too many viewers:
/// `Too many viewers: <n> (max: 10)`.
pub open spec fn too_many_message(n: nat) -> Seq<char> {
    "Too many viewers: "@ + decimal(n) + " (max: 10)"@
}

/// Whether a broadcast may go to `count` viewers: an error without viewers
/// or with more than the limit.
pub fn check_broadcast_audience(count: usize) -> (r: StreamResult<()>)
    ensures
        count == 0 ==> (r matches Err(StreamError::Viewer(m)) && m@ == "No viewers connected"@),
        count > MAX_VIEWERS ==> (r matches Err(StreamError::Viewer(m)) && m@ == too_many_message(count as nat)),
        0 < count <= MAX_VIEWERS ==> r is Ok,
{
    if count == 0 {
        return Err(StreamError::viewer("No viewers connected"));
    }
    if count > MAX_VIEWERS {
        let mut msg = String::new();
        append_str(&mut msg, "Too many viewers: ");
        let n = u64_to_decimal(count as u64);
        append_string(&mut msg, &n);
        append_str(&mut msg, " (max: 10)");
        return Err(StreamError::Viewer(msg));
    }
    Ok(())
}

/// The bytes of one frame at a quality: its bitrate over its frame rate, in
/// bytes, rounded down at each step.
pub fn estimate_frame_size(quality: &StreamQuality) -> (r: u64)
    requires
        quality.framerate > 0,
    ensures
        r == quality.bitrate / quality.framerate / 8,
{
    (quality.bitrate / quality.framerate / 8) as u64
}

/// The encoder settings for a broadcast to `viewer_count` viewers: a group
/// of pictures of fifteen frames per viewer up to 120, and one thread per
/// two viewers, from one to eight.
pub fn encoding_plan(viewer_count: usize) -> (r: (usize, usize))
    ensures
        r.0 == if viewer_count * 15 < 120 { viewer_count * 15 } else { 120 },
        r.1 == if viewer_count / 2 < 1 { 1 } else if viewer_count / 2 > 8 { 8 } else { viewer_count / 2 },
{
    let gop = if viewer_count < 8 { viewer_count * 15 } else { 120 };
    let half = viewer_count / 2;
    let threads = if half < 1 {
        1
    } else if half > 8 {
        8
    } else {
        half
    };
    (gop, threads)
}

/// A broadcast of one stream: its viewers, its quality and the frames sent;
/// the start time is nanoseconds since the Unix epoch.
#[derive(Debug)]
pub struct BroadcastSession {
    pub session_id: SessionId,
    pub viewers: Vec<ViewerId>,
    pub current_quality: StreamQuality,
    pub total_frames_sent: u64,
    pub started_at: u64,
}

/// Statistics of a broadcast.
#[derive(Debug)]
pub struct BroadcastStats {
    pub session_id: SessionId,
    pub viewer_count: usize,
    pub total_frames_sent: u64,
    pub current_quality: StreamQuality,
    pub started_at: u64,
}

/// The abstract state of a broadcast.
pub struct BroadcastView {
    pub viewers: Seq<Seq<char>>,
    pub quality: StreamQuality,
    pub frames_sent: u64,
    pub started_at: u64,
}

impl BroadcastSession {
    /// The abstract state.
    pub open spec fn state(&self) -> BroadcastView {
        BroadcastView {
            viewers: Seq::new(self.viewers@.len(), |i: int| self.viewers@[i]@),
            quality: self.current_quality,
            frames_sent: self.total_frames_sent,
            started_at: self.started_at,
        }
    }
}

/// The broadcasts under way, by stream.
pub struct BroadcastController {
    active_broadcasts: TextMap<BroadcastSession>,
}

impl BroadcastController {
    /// The broadcasts, by stream.
    pub closed spec fn broadcasts_view(&self) -> Map<Seq<char>, BroadcastView> {
        self.active_broadcasts@.map_values(|b: BroadcastSession| b.state())
    }

    /// No broadcasts.
    pub fn new() -> (r: Self)
        ensures
            r.broadcasts_view() == Map::<Seq<char>, BroadcastView>::empty(),
    {
        let r = Self { active_broadcasts: TextMap::new() };
        assert(r.broadcasts_view() =~= Map::<Seq<char>, BroadcastView>::empty());
        r
    }

    /// Record one round of a broadcast at `now` (started then if it was not
    /// under way, at the stream's quality): its viewers are now `viewers`, its
    /// quality `quality`, and one frame went to each viewer.
    pub fn record_round_at(
        &mut self,
        session_id: SessionId,
        stream_quality: StreamQuality,
        viewers: Vec<ViewerId>,
        quality: StreamQuality,
        now: u64,
    ) -> (r: StreamResult<()>)
        requires
            old(self).broadcasts_view().dom().contains(session_id@) ==>
                old(self).broadcasts_view()[session_id@].frames_sent + viewers@.len() <= u64::MAX,
        ensures
            r is Ok,
            final(self).broadcasts_view() == old(self).broadcasts_view().insert(
                session_id@,
                BroadcastView {
                    viewers: Seq::new(viewers@.len(), |i: int| viewers@[i]@),
                    quality,
                    frames_sent: (if old(self).broadcasts_view().dom().contains(session_id@) {
                        old(self).broadcasts_view()[session_id@].frames_sent + viewers@.len()
                    } else {
                        viewers@.len() as int
                    }) as u64,
                    started_at: if old(self).broadcasts_view().dom().contains(session_id@) {
                        old(self).broadcasts_view()[session_id@].started_at
                    } else {
                        now
                    },
                },
            ),
    {
        let (frames, started) = match self.active_broadcasts.get(&session_id) {
            Some(b) => (b.total_frames_sent, b.started_at),
            None => (0u64, now),
        };
        let count = viewers.len() as u64;
        let ghost vs = Seq::new(viewers@.len(), |i: int| viewers@[i]@);
        let b = BroadcastSession {
            session_id: session_id.clone(),
            viewers,
            current_quality: quality,
            total_frames_sent: frames + count,
            started_at: started,
        };
        assert(b.state().viewers =~= vs);
        let ghost st = b.state();
        let ghost key = session_id@;
        self.active_broadcasts.insert(session_id, b);
        assert(self.broadcasts_view() =~= old(self).broadcasts_view().insert(key, st));
        Ok(())
    }

    /// The statistics of a broadcast, or a session-not-found error.
    pub fn get_broadcast_stats(&self, session_id: &SessionId) -> (r: StreamResult<BroadcastStats>)
        ensures
            self.broadcasts_view().dom().contains(session_id@) ==> (r matches Ok(st) && {
                &&& st.session_id@ == session_id@
                &&& st.viewer_count == self.broadcasts_view()[session_id@].viewers.len()
                &&& st.total_frames_sent == self.broadcasts_view()[session_id@].frames_sent
                &&& st.current_quality == self.broadcasts_view()[session_id@].quality
                &&& st.started_at == self.broadcasts_view()[session_id@].started_at
            }),
            !self.broadcasts_view().dom().contains(session_id@) ==> (r matches Err(StreamError::SessionNotFound(m)) && m@ == session_id@),
    {
        match self.active_broadcasts.get(session_id) {
            Some(b) => Ok(BroadcastStats {
                session_id: session_id.clone(),
                viewer_count: b.viewers.len(),
                total_frames_sent: b.total_frames_sent,
                current_quality: b.current_quality,
                started_at: b.started_at,
            }),
            None => Err(StreamError::session_not_found(session_id.as_str())),
        }
    }

    /// End a broadcast, or a session-not-found error.
    pub fn stop_broadcast(&mut self, session_id: &SessionId) -> (r: StreamResult<()>)
        ensures
            old(self).broadcasts_view().dom().contains(session_id@) ==> (r is Ok && final(self).broadcasts_view()
                == old(self).broadcasts_view().remove(session_id@)),
            !old(self).broadcasts_view().dom().contains(session_id@) ==> ((r matches Err(StreamError::SessionNotFound(m))
                && m@ == session_id@) && final(self).broadcasts_view() == old(self).broadcasts_view()),
    {
        if !self.active_broadcasts.contains_key(session_id) {
            return Err(StreamError::session_not_found(session_id.as_str()));
        }
        self.active_broadcasts.remove(session_id);
        assert(self.broadcasts_view() =~= old(self).broadcasts_view().remove(session_id@));
        Ok(())
    }

    /// The streams being broadcast, each once.
    pub fn get_active_sessions(&self) -> (r: Vec<SessionId>)
        ensures
            r@.len() == self.broadcasts_view().dom().len(),
            forall|i: int| 0 <= i < r@.len() ==> self.broadcasts_view().dom().contains(#[trigger] r@[i]@),
            forall|k: Seq<char>| #[trigger] self.broadcasts_view().dom().contains(k) ==> exists|i: int| 0 <= i < r@.len() && r@[i]@ == k,
    {
        assert(self.broadcasts_view().dom() =~= self.active_broadcasts@.dom());
        self.active_broadcasts.text_keys()
    }

    /// The viewer count of each broadcast under way, for its encoder plan.
    pub fn viewer_counts(&self) -> (r: Vec<usize>)
        ensures
            r@.len() == self.broadcasts_view().dom().len(),
    {
        assert(self.broadcasts_view().dom() =~= self.active_broadcasts@.dom());
        let keys = self.active_broadcasts.text_keys();
        let mut out: Vec<usize> = Vec::new();
        let mut i: usize = 0;
        while i < keys.len()
            invariant
                i <= keys@.len(),
                out@.len() == i,
            decreases keys@.len() - i,
        {
            let n = match self.active_broadcasts.get(&keys[i]) {
                Some(b) => b.viewers.len(),
                None => 0,
            };
            out.push(n);
            i = i + 1;
        }
        out
    }
}

impl Default for BroadcastController {
    fn default() -> (r: Self)
        ensures
            r.broadcasts_view() == Map::<Seq<char>, BroadcastView>::empty(),
    {
        Self::new()
    }
}

/// A connection counts as poor (and its viewer as unhealthy) exactly when it
/// is Poor or Disconnected; Excellent, Good and Fair connections are healthy.
pub proof fn lemma_health_by_quality(q: ConnectionQuality)
    ensures
        !healthy(q) <==> (q == ConnectionQuality::Poor || q == ConnectionQuality::Disconnected),
        healthy(q) <==> (q == ConnectionQuality::Excellent || q == ConnectionQuality::Good
            || q == ConnectionQuality::Fair),
{
}

} // verus!

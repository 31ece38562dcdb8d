//! Discovery allowlist and per-service permissions of peers.

use vstd::prelude::*;
use crate::security::error::SecurityResult;
use crate::security::identity::PeerId;
use crate::security::peer_map::PeerMap;
use super::{ServicePermissions, default_permissions};

verus! {

/// Service types that can be controlled.
#[derive(Clone, Copy, Debug, PartialEq, Eq, Hash, Structural)]
pub enum ServiceType {
    Clipboard,
    FileTransfer,
    Camera,
    Commands,
}

/// Whether `p` allows the service `s`.
pub open spec fn permits(p: ServicePermissions, s: ServiceType) -> bool {
    match s {
        ServiceType::Clipboard => p.clipboard,
        ServiceType::FileTransfer => p.file_transfer,
        ServiceType::Camera => p.camera,
        ServiceType::Commands => p.commands,
    }
}

/// `p` with the flag of service `s` set to `on`.
pub open spec fn with_service(p: ServicePermissions, s: ServiceType, on: bool) -> ServicePermissions {
    match s {
        ServiceType::Clipboard => ServicePermissions { clipboard: on, ..p },
        ServiceType::FileTransfer => ServicePermissions { file_transfer: on, ..p },
        ServiceType::Camera => ServicePermissions { camera: on, ..p },
        ServiceType::Commands => ServicePermissions { commands: on, ..p },
    }
}

/// `p` with the flag of service `s` set to `on`.
fn set_service(p: &mut ServicePermissions, s: ServiceType, on: bool)
    ensures
        *final(p) == with_service(*old(p), s, on),
{
    match s {
        ServiceType::Clipboard => p.clipboard = on,
        ServiceType::FileTransfer => p.file_transfer = on,
        ServiceType::Camera => p.camera = on,
        ServiceType::Commands => p.commands = on,
    }
}

/// Allowlist manager for access control.
pub struct AllowlistManager {
    discovery_allowlist: PeerMap<()>,
    service_permissions: PeerMap<ServicePermissions>,
}

impl AllowlistManager {
    /// Fingerprints of the peers allowed to discover this device.
    pub closed spec fn allowlist_view(&self) -> Set<Seq<u8>> {
        self.discovery_allowlist@.dom()
    }

    /// Service permissions by peer fingerprint.
    pub closed spec fn permissions_view(&self) -> Map<Seq<u8>, ServicePermissions> {
        self.service_permissions@
    }

    /// Whether the peer with fingerprint `k` may use service `s` (no
    /// permissions recorded means no).
    pub open spec fn allows(&self, k: Seq<u8>, s: ServiceType) -> bool {
        self.permissions_view().dom().contains(k) && permits(self.permissions_view()[k], s)
    }

    /// An empty allowlist with no permissions.
    pub fn new() -> (r: Self)
        ensures
            r.allowlist_view() == Set::<Seq<u8>>::empty(),
            r.permissions_view() == Map::<Seq<u8>, ServicePermissions>::empty(),
    {
        Self { discovery_allowlist: PeerMap::new(), service_permissions: PeerMap::new() }
    }

    /// Add a peer to the discovery allowlist.
    pub fn add_to_discovery_allowlist(&mut self, peer_id: PeerId) -> (r: SecurityResult<()>)
        ensures
            r is Ok,
            final(self).allowlist_view() == old(self).allowlist_view().insert(peer_id@),
            final(self).permissions_view() == old(self).permissions_view(),
    {
        self.discovery_allowlist.insert(peer_id, ());
        Ok(())
    }

    /// Remove a peer from the discovery allowlist.
    pub fn remove_from_discovery_allowlist(&mut self, peer_id: &PeerId) -> (r: SecurityResult<()>)
        ensures
            r is Ok,
            final(self).allowlist_view() == old(self).allowlist_view().remove(peer_id@),
            final(self).permissions_view() == old(self).permissions_view(),
    {
        self.discovery_allowlist.remove(peer_id);
        Ok(())
    }

    /// Whether a peer is in the discovery allowlist.
    pub fn is_in_discovery_allowlist(&self, peer_id: &PeerId) -> (r: bool)
        ensures
            r == self.allowlist_view().contains(peer_id@),
    {
        self.discovery_allowlist.contains_key(peer_id)
    }

    /// The peers in the discovery allowlist, each once.
    pub fn get_discovery_allowlist(&self) -> (r: Vec<PeerId>)
        ensures
            forall|i: int| 0 <= i < r@.len() ==> self.allowlist_view().contains(#[trigger] r@[i]@),
            forall|k: Seq<u8>| #[trigger] self.allowlist_view().contains(k) ==> exists|i: int| 0 <= i < r@.len() && r@[i]@ == k,
            forall|i: int, j: int| 0 <= i < j < r@.len() ==> #[trigger] r@[i]@ != #[trigger] r@[j]@,
    {
        self.discovery_allowlist.peer_keys()
    }

    /// Set the service permissions of a peer.
    pub fn set_permissions(&mut self, peer_id: PeerId, permissions: ServicePermissions) -> (r: SecurityResult<()>)
        ensures
            r is Ok,
            final(self).allowlist_view() == old(self).allowlist_view(),
            final(self).permissions_view() == old(self).permissions_view().insert(peer_id@, permissions),
    {
        self.service_permissions.insert(peer_id, permissions);
        Ok(())
    }

    /// The service permissions of a peer, if any were set.
    pub fn get_permissions(&self, peer_id: &PeerId) -> (r: Option<ServicePermissions>)
        ensures
            match r {
                Some(p) => self.permissions_view().dom().contains(peer_id@) && p == self.permissions_view()[peer_id@],
                None => !self.permissions_view().dom().contains(peer_id@),
            },
    {
        match self.service_permissions.get(peer_id) {
            Some(p) => Some(*p),
            None => None,
        }
    }

    /// Whether a peer may use a service; a peer without permissions may not.
    pub fn has_service_permission(&self, peer_id: &PeerId, service: ServiceType) -> (r: bool)
        ensures
            r == self.allows(peer_id@, service),
    {
        match self.service_permissions.get(peer_id) {
            Some(p) => match service {
                ServiceType::Clipboard => p.clipboard,
                ServiceType::FileTransfer => p.file_transfer,
                ServiceType::Camera => p.camera,
                ServiceType::Commands => p.commands,
            },
            None => false,
        }
    }

    /// Allow a peer a service; a peer without permissions first gets the defaults.
    pub fn grant_service_permission(&mut self, peer_id: &PeerId, service: ServiceType) -> (r: SecurityResult<()>)
        ensures
            r is Ok,
            final(self).allowlist_view() == old(self).allowlist_view(),
            final(self).permissions_view() == old(self).permissions_view().insert(
                peer_id@,
                with_service(
                    if old(self).permissions_view().dom().contains(peer_id@) {
                        old(self).permissions_view()[peer_id@]
                    } else {
                        default_permissions()
                    },
                    service,
                    true,
                ),
            ),
    {
        let mut p = match self.service_permissions.get(peer_id) {
            Some(p) => *p,
            None => ServicePermissions::default_permissions(),
        };
        set_service(&mut p, service, true);
        self.service_permissions.insert(*peer_id, p);
        Ok(())
    }

    /// Withdraw a service from a peer; a peer without permissions is left as it is.
    pub fn revoke_service_permission(&mut self, peer_id: &PeerId, service: ServiceType) -> (r: SecurityResult<()>)
        ensures
            r is Ok,
            final(self).allowlist_view() == old(self).allowlist_view(),
            final(self).permissions_view() == if old(self).permissions_view().dom().contains(peer_id@) {
                old(self).permissions_view().insert(peer_id@, with_service(old(self).permissions_view()[peer_id@], service, false))
            } else {
                old(self).permissions_view()
            },
    {
        let current = match self.service_permissions.get(peer_id) {
            Some(p) => Some(*p),
            None => None,
        };
        if let Some(mut p) = current {
            set_service(&mut p, service, false);
            self.service_permissions.insert(*peer_id, p);
        }
        Ok(())
    }

    /// Remove all permissions of a peer.
    pub fn remove_peer_permissions(&mut self, peer_id: &PeerId) -> (r: SecurityResult<()>)
        ensures
            r is Ok,
            final(self).allowlist_view() == old(self).allowlist_view(),
            final(self).permissions_view() == old(self).permissions_view().remove(peer_id@),
    {
        self.service_permissions.remove(peer_id);
        Ok(())
    }

    /// The peers that have permissions, each once.
    pub fn get_all_peers_with_permissions(&self) -> (r: Vec<PeerId>)
        ensures
            forall|i: int| 0 <= i < r@.len() ==> self.permissions_view().dom().contains(#[trigger] r@[i]@),
            forall|k: Seq<u8>| #[trigger] self.permissions_view().dom().contains(k) ==> exists|i: int| 0 <= i < r@.len() && r@[i]@ == k,
            forall|i: int, j: int| 0 <= i < j < r@.len() ==> #[trigger] r@[i]@ != #[trigger] r@[j]@,
    {
        self.service_permissions.peer_keys()
    }

    /// Whether a peer may use a service: it must be in the discovery
    /// allowlist and have the service's permission.
    pub fn check_access(&self, peer_id: &PeerId, service: ServiceType) -> (r: SecurityResult<bool>)
        ensures
            r matches Ok(b) && b == (self.allowlist_view().contains(peer_id@) && self.allows(peer_id@, service)),
    {
        if !self.is_in_discovery_allowlist(peer_id) {
            return Ok(false);
        }
        Ok(self.has_service_permission(peer_id, service))
    }

    /// Empty the discovery allowlist.
    pub fn clear_discovery_allowlist(&mut self) -> (r: SecurityResult<()>)
        ensures
            r is Ok,
            final(self).allowlist_view() == Set::<Seq<u8>>::empty(),
            final(self).permissions_view() == old(self).permissions_view(),
    {
        self.discovery_allowlist.clear();
        Ok(())
    }

    /// Remove all service permissions.
    pub fn clear_all_permissions(&mut self) -> (r: SecurityResult<()>)
        ensures
            r is Ok,
            final(self).allowlist_view() == old(self).allowlist_view(),
            final(self).permissions_view() == Map::<Seq<u8>, ServicePermissions>::empty(),
    {
        self.service_permissions.clear();
        Ok(())
    }
}

impl Default for AllowlistManager {
    fn default() -> (r: Self)
        ensures
            r.allowlist_view() == Set::<Seq<u8>>::empty(),
            r.permissions_view() == Map::<Seq<u8>, ServicePermissions>::empty(),
    {
        Self::new()
    }
}

/// Granting a service and then asking for it answers yes; revoking it and
/// then asking answers no, whatever was recorded before.
pub proof fn lemma_grant_then_revoke(p: ServicePermissions, s: ServiceType)
    ensures
        permits(with_service(p, s, true), s),
        !permits(with_service(p, s, false), s),
        forall|t: ServiceType| t != s ==> #[trigger] permits(with_service(p, s, true), t) == permits(p, t),
        forall|t: ServiceType| t != s ==> #[trigger] permits(with_service(p, s, false), t) == permits(p, t),
{
}

} // verus!

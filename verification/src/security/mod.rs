//! Security subsystem: constant-time helpers, identities, trust and policies.

pub mod api;
pub mod constant_time;
pub mod encryption;
pub mod error;
pub mod identity;
pub mod peer_map;
pub mod policy;
pub mod secure_memory;
pub mod trust;

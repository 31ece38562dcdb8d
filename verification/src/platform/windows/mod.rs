//! Windows support: architecture tuning, installers, notifications,
//! performance settings, updates and the registry location.

pub mod architecture;
pub mod installer;
pub mod networking;
pub mod notifications;
pub mod performance;
pub mod registry;
pub mod updater;
pub mod win32;

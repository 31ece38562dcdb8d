//! Update settings, package checks and Store updates.

use vstd::prelude::*;
use crate::platform::{PlatformError, PlatformResult};
use crate::text::append_str;

verus! {

/// An available update.
#[derive(Clone, Debug)]
pub struct UpdateInfo {
    pub version: String,
    pub release_date: String,
    pub package_name: String,
    pub package_url: String,
    pub package_size: u64,
    pub package_hash: String,
    pub release_notes: String,
    pub is_critical: bool,
    pub min_version: String,
}

/// Update channel.
#[derive(Clone, Copy, Debug, PartialEq, Eq, Structural)]
pub enum UpdateChannel {
    Stable,
    Beta,
    Dev,
}

/// Update settings.
#[derive(Clone, Copy, Debug, PartialEq, Eq, Structural)]
pub struct UpdateConfig {
    pub auto_check: bool,
    pub auto_download: bool,
    pub auto_install: bool,
    pub check_interval_hours: u32,
    pub update_channel: UpdateChannel,
}

/// Outcome of an installed update.
#[derive(Clone, Copy, Debug, PartialEq, Eq, Structural)]
pub enum UpdateStatus {
    Installed,
    Failed,
    RolledBack,
}

/// A past update.
#[derive(Clone, Debug)]
pub struct UpdateHistoryEntry {
    pub version: String,
    pub install_date: String,
    pub status: UpdateStatus,
}

/// Windows update manager.
pub struct UpdateManager {
    app_name: String,
    current_version: String,
    update_url: String,
}

impl UpdateManager {
    /// The application's name.
    pub closed spec fn name_view(&self) -> Seq<char> {
        self.app_name@
    }

    /// The version installed.
    pub closed spec fn version_view(&self) -> Seq<char> {
        self.current_version@
    }

    /// Where updates are looked for.
    pub closed spec fn url_view(&self) -> Seq<char> {
        self.update_url@
    }

    /// A manager for an application.
    pub fn new(app_name: String, current_version: String, update_url: String) -> (r: Self)
        ensures
            r.name_view() == app_name@,
            r.version_view() == current_version@,
            r.url_view() == update_url@,
    {
        Self { app_name, current_version, update_url }
    }

    /// Check a downloaded package, given whether it exists on disk: a missing
    /// package is an error; an existing one is accepted (its hash is not
    /// checked).
    pub fn verify_package(&self, package_path: &str, package_exists: bool, expected_hash: &str) -> (r: PlatformResult<bool>)
        ensures
            match r {
                Ok(b) => package_exists && b,
                Err(e) => !package_exists && (e matches PlatformError::SystemError(m) && m@ == "Package not found: "@ + package_path@),
            },
    {
        if !package_exists {
            let mut msg = String::new();
            append_str(&mut msg, "Package not found: ");
            append_str(&mut msg, package_path);
            return Err(PlatformError::SystemError(msg));
        }
        Ok(true)
    }

    /// Schedule an update for the next restart (accepted).
    pub fn schedule_update(&self, package_path: &str) -> (r: PlatformResult<()>)
        ensures
            r is Ok,
    {
        Ok(())
    }

    /// The update settings: check and download automatically, install by
    /// hand, check daily, stable channel.
    pub fn get_update_config(&self) -> (r: PlatformResult<UpdateConfig>)
        ensures
            r matches Ok(c) && c == (UpdateConfig {
                auto_check: true,
                auto_download: true,
                auto_install: false,
                check_interval_hours: 24,
                update_channel: UpdateChannel::Stable,
            }),
    {
        Ok(UpdateConfig {
            auto_check: true,
            auto_download: true,
            auto_install: false,
            check_interval_hours: 24,
            update_channel: UpdateChannel::Stable,
        })
    }

    /// Store update settings (accepted).
    pub fn set_update_config(&self, config: &UpdateConfig) -> (r: PlatformResult<()>)
        ensures
            r is Ok,
    {
        Ok(())
    }

    /// Past updates (none are kept).
    pub fn get_update_history(&self) -> (r: PlatformResult<Vec<UpdateHistoryEntry>>)
        ensures
            r matches Ok(v) && v@.len() == 0,
    {
        Ok(Vec::new())
    }

    /// Record an installed update (accepted).
    pub fn record_update(&self, update_info: &UpdateInfo) -> (r: PlatformResult<()>)
        ensures
            r is Ok,
    {
        Ok(())
    }
}

/// Microsoft Store update integration.
pub struct StoreUpdateManager {
    package_family_name: String,
}

impl StoreUpdateManager {
    /// The package family.
    pub closed spec fn family_view(&self) -> Seq<char> {
        self.package_family_name@
    }

    /// A manager for a package family.
    pub fn new(package_family_name: String) -> (r: Self)
        ensures
            r.family_view() == package_family_name@,
    {
        Self { package_family_name }
    }

    /// Whether the application came from the Store (taken not to).
    pub fn is_store_app(&self) -> (r: PlatformResult<bool>)
        ensures
            r matches Ok(b) && !b,
    {
        Ok(false)
    }

    /// The Store version of the application.
    pub fn get_store_version(&self) -> (r: PlatformResult<String>)
        ensures
            r matches Ok(v) && v@ == "1.0.0"@,
    {
        Ok(String::from_str("1.0.0"))
    }
}

} // verus!

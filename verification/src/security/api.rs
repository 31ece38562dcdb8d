//! Configuration of the security system, and its builder.

use vstd::prelude::*;
use crate::security::policy::{SecurityPolicy, default_security_policy};

verus! {

/// Configuration for the security system.
#[derive(Debug)]
pub struct SecuritySystemConfig {
    /// Custom keystore service name (`None`: the default).
    pub keystore_service_name: Option<String>,
    /// Path of the trust database (`None`: the default).
    pub trust_db_path: Option<String>,
    /// Session timeout, in seconds.
    pub session_timeout: u64,
    /// Key rotation interval, in seconds.
    pub key_rotation_interval: u64,
    /// Lifetime of a disposable identity, in seconds.
    pub disposable_identity_lifetime: u64,
    /// Security policy.
    pub security_policy: SecurityPolicy,
}

impl SecuritySystemConfig {
    /// One-hour sessions, keys rotated every fifteen minutes, disposable
    /// identities that live a day, the default policy, default paths.
    pub fn default_config() -> (r: Self)
        ensures
            r.keystore_service_name is None,
            r.trust_db_path is None,
            r.session_timeout == 3600,
            r.key_rotation_interval == 900,
            r.disposable_identity_lifetime == 86400,
            r.security_policy == default_security_policy(),
    {
        Self {
            keystore_service_name: None,
            trust_db_path: None,
            session_timeout: 3600,
            key_rotation_interval: 900,
            disposable_identity_lifetime: 86400,
            security_policy: SecurityPolicy::default_policy(),
        }
    }
}

impl Default for SecuritySystemConfig {
    fn default() -> (r: Self)
        ensures
            r.keystore_service_name is None,
            r.trust_db_path is None,
            r.session_timeout == 3600,
            r.key_rotation_interval == 900,
            r.disposable_identity_lifetime == 86400,
            r.security_policy == default_security_policy(),
    {
        Self::default_config()
    }
}

impl Clone for SecuritySystemConfig {
    fn clone(&self) -> (r: Self)
        ensures
            r == *self,
    {
        let keystore_service_name = match &self.keystore_service_name {
            Some(s) => Some(s.clone()),
            None => None,
        };
        let trust_db_path = match &self.trust_db_path {
            Some(s) => Some(s.clone()),
            None => None,
        };
        Self {
            keystore_service_name,
            trust_db_path,
            session_timeout: self.session_timeout,
            key_rotation_interval: self.key_rotation_interval,
            disposable_identity_lifetime: self.disposable_identity_lifetime,
            security_policy: self.security_policy,
        }
    }
}

/// Builder for the security system's configuration.
pub struct SecuritySystemBuilder {
    config: SecuritySystemConfig,
}

impl SecuritySystemBuilder {
    /// The configuration built so far.
    pub closed spec fn config_view(&self) -> SecuritySystemConfig {
        self.config
    }

    /// A builder starting from the default configuration.
    pub fn new() -> (r: Self)
        ensures
            r.config_view().keystore_service_name is None,
            r.config_view().trust_db_path is None,
            r.config_view().session_timeout == 3600,
            r.config_view().key_rotation_interval == 900,
            r.config_view().disposable_identity_lifetime == 86400,
            r.config_view().security_policy == default_security_policy(),
    {
        Self { config: SecuritySystemConfig::default_config() }
    }

    /// Use a custom keystore service name.
    pub fn keystore_service_name(self, name: String) -> (r: Self)
        ensures
            r.config_view() == (SecuritySystemConfig { keystore_service_name: Some(name), ..self.config_view() }),
    {
        let mut b = self;
        b.config.keystore_service_name = Some(name);
        b
    }

    /// Use a custom trust database path.
    pub fn trust_db_path(self, path: String) -> (r: Self)
        ensures
            r.config_view() == (SecuritySystemConfig { trust_db_path: Some(path), ..self.config_view() }),
    {
        let mut b = self;
        b.config.trust_db_path = Some(path);
        b
    }

    /// Set the session timeout, in seconds.
    pub fn session_timeout(self, timeout: u64) -> (r: Self)
        ensures
            r.config_view() == (SecuritySystemConfig { session_timeout: timeout, ..self.config_view() }),
    {
        let mut b = self;
        b.config.session_timeout = timeout;
        b
    }

    /// Set the key rotation interval, in seconds.
    pub fn key_rotation_interval(self, interval: u64) -> (r: Self)
        ensures
            r.config_view() == (SecuritySystemConfig { key_rotation_interval: interval, ..self.config_view() }),
    {
        let mut b = self;
        b.config.key_rotation_interval = interval;
        b
    }

    /// Set the lifetime of disposable identities, in seconds.
    pub fn disposable_identity_lifetime(self, lifetime: u64) -> (r: Self)
        ensures
            r.config_view() == (SecuritySystemConfig { disposable_identity_lifetime: lifetime, ..self.config_view() }),
    {
        let mut b = self;
        b.config.disposable_identity_lifetime = lifetime;
        b
    }

    /// Set the security policy.
    pub fn security_policy(self, policy: SecurityPolicy) -> (r: Self)
        ensures
            r.config_view() == (SecuritySystemConfig { security_policy: policy, ..self.config_view() }),
    {
        let mut b = self;
        b.config.security_policy = policy;
        b
    }

    /// The configuration built.
    pub fn config(self) -> (r: SecuritySystemConfig)
        ensures
            r == self.config_view(),
    {
        self.config
    }
}

impl Default for SecuritySystemBuilder {
    fn default() -> (r: Self)
        ensures
            r.config_view().keystore_service_name is None,
            r.config_view().trust_db_path is None,
            r.config_view().session_timeout == 3600,
            r.config_view().key_rotation_interval == 900,
            r.config_view().disposable_identity_lifetime == 86400,
            r.config_view().security_policy == default_security_policy(),
    {
        Self::new()
    }
}

} // verus!

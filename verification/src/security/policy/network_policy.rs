//! Network policy: which connection types are allowed.

use vstd::prelude::*;
use crate::security::error::{SecurityError, SecurityResult, PolicyError};
use crate::security::policy::ConnectionType;
use crate::text::append_str;

verus! {

/// Network policy mode.
#[derive(Debug, PartialEq, Eq)]
pub enum NetworkMode {
    /// Allow all connection types.
    Unrestricted,
    /// Only allow local network connections.
    LocalOnly,
    /// Custom policy with specific allowed connection types.
    Custom(Vec<ConnectionType>),
}

/// The abstract content of a network mode.
pub ghost enum ModeView {
    Unrestricted,
    LocalOnly,
    Custom(Seq<ConnectionType>),
}

impl View for NetworkMode {
    type V = ModeView;

    open spec fn view(&self) -> ModeView {
        match self {
            NetworkMode::Unrestricted => ModeView::Unrestricted,
            NetworkMode::LocalOnly => ModeView::LocalOnly,
            NetworkMode::Custom(v) => ModeView::Custom(v@),
        }
    }
}

/// A copy of a list of connection types.
fn copy_types(v: &Vec<ConnectionType>) -> (r: Vec<ConnectionType>)
    ensures
        r@ == v@,
{
    let mut r: Vec<ConnectionType> = Vec::new();
    let mut i: usize = 0;
    while i < v.len()
        invariant
            i <= v@.len(),
            r@ == v@.take(i as int),
        decreases v@.len() - i,
    {
        r.push(v[i]);
        proof {
            assert(v@.take(i as int + 1) =~= v@.take(i as int).push(v@[i as int]));
        }
        i = i + 1;
    }
    assert(v@.take(v@.len() as int) =~= v@);
    r
}

impl Clone for NetworkMode {
    fn clone(&self) -> (r: Self)
        ensures
            r@ == self@,
    {
        match self {
            NetworkMode::Unrestricted => NetworkMode::Unrestricted,
            NetworkMode::LocalOnly => NetworkMode::LocalOnly,
            NetworkMode::Custom(v) => NetworkMode::Custom(copy_types(v)),
        }
    }
}

/// Whether a mode allows a connection type.
pub open spec fn mode_allows(m: ModeView, t: ConnectionType) -> bool {
    match m {
        ModeView::Unrestricted => true,
        ModeView::LocalOnly => t == ConnectionType::LocalNetwork,
        ModeView::Custom(types) => types.contains(t),
    }
}

/// The name of a connection type, as `Debug` prints it.
pub open spec fn connection_type_name(t: ConnectionType) -> Seq<char> {
    match t {
        ConnectionType::LocalNetwork => "LocalNetwork"@,
        ConnectionType::Relay => "Relay"@,
        ConnectionType::Direct => "Direct"@,
    }
}

/// The names of `types` joined by ", ".
pub open spec fn joined_names(types: Seq<ConnectionType>) -> Seq<char>
    decreases types.len(),
{
    if types.len() == 0 {
        Seq::empty()
    } else if types.len() == 1 {
        connection_type_name(types[0])
    } else {
        joined_names(types.drop_last()) + ", "@ + connection_type_name(types.last())
    }
}

/// The UI description of a mode.
pub open spec fn mode_description(m: ModeView) -> Seq<char> {
    match m {
        ModeView::Unrestricted => "All connection types allowed (local, relay, direct)"@,
        ModeView::LocalOnly => "Only local network connections allowed. Relay and global discovery blocked."@,
        ModeView::Custom(types) => "Custom policy: allowed types = ["@ + joined_names(types) + "]"@,
    }
}

/// The UI indicator of a mode.
pub open spec fn mode_indicator(m: ModeView) -> Seq<char> {
    match m {
        ModeView::Unrestricted => "Unrestricted"@,
        ModeView::LocalOnly => "Local Only"@,
        ModeView::Custom(_) => "Custom"@,
    }
}

/// Whether the error is the local-only error.
pub open spec fn is_local_only_error(e: SecurityError) -> bool {
    e matches SecurityError::Policy(PolicyError::LocalOnlyBlocked)
}

/// Network policy enforcer for connection type restrictions.
pub struct NetworkPolicyEnforcer {
    mode: NetworkMode,
    local_only_enabled: bool,
}

/// Appends the name of a connection type.
pub(crate) fn append_type_name(s: &mut String, t: ConnectionType)
    ensures
        final(s)@ == old(s)@ + connection_type_name(t),
{
    match t {
        ConnectionType::LocalNetwork => append_str(s, "LocalNetwork"),
        ConnectionType::Relay => append_str(s, "Relay"),
        ConnectionType::Direct => append_str(s, "Direct"),
    }
}

impl NetworkPolicyEnforcer {
    /// The current mode.
    pub closed spec fn mode_view(&self) -> ModeView {
        self.mode@
    }

    /// Whether local-only mode is flagged.
    pub closed spec fn local_only_view(&self) -> bool {
        self.local_only_enabled
    }

    /// A new enforcer in unrestricted mode.
    pub fn new() -> (r: Self)
        ensures
            r.mode_view() == ModeView::Unrestricted,
            !r.local_only_view(),
    {
        Self { mode: NetworkMode::Unrestricted, local_only_enabled: false }
    }

    /// Enable local-only mode.
    pub fn enable_local_only(&mut self) -> (r: SecurityResult<()>)
        ensures
            r is Ok,
            final(self).mode_view() == ModeView::LocalOnly,
            final(self).local_only_view(),
    {
        self.local_only_enabled = true;
        self.mode = NetworkMode::LocalOnly;
        Ok(())
    }

    /// Disable local-only mode, returning to unrestricted mode.
    pub fn disable_local_only(&mut self) -> (r: SecurityResult<()>)
        ensures
            r is Ok,
            final(self).mode_view() == ModeView::Unrestricted,
            !final(self).local_only_view(),
    {
        self.local_only_enabled = false;
        self.mode = NetworkMode::Unrestricted;
        Ok(())
    }

    /// Whether local-only mode is enabled.
    pub fn is_local_only_enabled(&self) -> (r: bool)
        ensures
            r == self.local_only_view(),
    {
        self.local_only_enabled
    }

    /// Set the network mode; local-only is flagged exactly for `LocalOnly`.
    pub fn set_mode(&mut self, mode: NetworkMode) -> (r: SecurityResult<()>)
        ensures
            r is Ok,
            final(self).mode_view() == mode@,
            final(self).local_only_view() == (mode@ is LocalOnly),
    {
        self.local_only_enabled = match mode {
            NetworkMode::LocalOnly => true,
            _ => false,
        };
        self.mode = mode;
        Ok(())
    }

    /// The current network mode.
    pub fn get_mode(&self) -> (r: NetworkMode)
        ensures
            r@ == self.mode_view(),
    {
        self.mode.clone()
    }

    /// Whether the mode allows `connection_type`; refusal is the local-only error.
    pub fn is_connection_type_allowed(&self, connection_type: &ConnectionType) -> (r: SecurityResult<bool>)
        ensures
            match r {
                Ok(b) => b && mode_allows(self.mode_view(), *connection_type),
                Err(e) => !mode_allows(self.mode_view(), *connection_type) && is_local_only_error(e),
            },
    {
        let allowed = match &self.mode {
            NetworkMode::Unrestricted => true,
            NetworkMode::LocalOnly => *connection_type == ConnectionType::LocalNetwork,
            NetworkMode::Custom(types) => {
                let mut found = false;
                let mut i: usize = 0;
                while i < types.len()
                    invariant
                        i <= types@.len(),
                        found == (exists|j: int| 0 <= j < i && types@[j] == *connection_type),
                    decreases types@.len() - i,
                {
                    if types[i] == *connection_type {
                        found = true;
                    }
                    i = i + 1;
                }
                found
            },
        };
        if allowed {
            Ok(true)
        } else {
            Err(SecurityError::Policy(PolicyError::LocalOnlyBlocked))
        }
    }

    /// Whether relay connections are allowed.
    pub fn are_relay_connections_allowed(&self) -> (r: bool)
        ensures
            r == mode_allows(self.mode_view(), ConnectionType::Relay),
    {
        match self.is_connection_type_allowed(&ConnectionType::Relay) {
            Ok(_) => true,
            Err(_) => false,
        }
    }

    /// Global discovery is allowed only in unrestricted mode.
    pub fn is_global_discovery_allowed(&self) -> (r: bool)
        ensures
            r == (self.mode_view() is Unrestricted),
    {
        match self.mode {
            NetworkMode::Unrestricted => true,
            _ => false,
        }
    }

    /// The mode indicator shown in the UI.
    pub fn get_mode_indicator(&self) -> (r: String)
        ensures
            r@ == mode_indicator(self.mode_view()),
    {
        let mut s = String::new();
        match self.mode {
            NetworkMode::Unrestricted => append_str(&mut s, "Unrestricted"),
            NetworkMode::LocalOnly => append_str(&mut s, "Local Only"),
            NetworkMode::Custom(_) => append_str(&mut s, "Custom"),
        }
        assert(s@ =~= mode_indicator(self.mode_view()));
        s
    }

    /// A detailed description of the mode.
    pub fn get_mode_description(&self) -> (r: String)
        ensures
            r@ == mode_description(self.mode_view()),
    {
        let mut s = String::new();
        match &self.mode {
            NetworkMode::Unrestricted => {
                append_str(&mut s, "All connection types allowed (local, relay, direct)");
            },
            NetworkMode::LocalOnly => {
                append_str(&mut s, "Only local network connections allowed. Relay and global discovery blocked.");
            },
            NetworkMode::Custom(types) => {
                append_str(&mut s, "Custom policy: allowed types = [");
                let ghost prefix = s@;
                let mut i: usize = 0;
                while i < types.len()
                    invariant
                        i <= types@.len(),
                        s@ == prefix + joined_names(types@.take(i as int)),
                    decreases types@.len() - i,
                {
                    proof {
                        assert(types@.take(i as int + 1).drop_last() =~= types@.take(i as int));
                    }
                    if i > 0 {
                        append_str(&mut s, ", ");
                    }
                    append_type_name(&mut s, types[i]);
                    proof {
                        if i == 0 {
                            assert(types@.take(0) =~= Seq::<ConnectionType>::empty());
                        }
                    }
                    i = i + 1;
                }
                assert(types@.take(types@.len() as int) =~= types@);
                append_str(&mut s, "]");
            },
        }
        assert(s@ =~= mode_description(self.mode_view()));
        s
    }

    /// Validate a connection attempt against the policy.
    pub fn validate_connection(&self, connection_type: &ConnectionType) -> (r: SecurityResult<()>)
        ensures
            match r {
                Ok(_) => mode_allows(self.mode_view(), *connection_type),
                Err(e) => !mode_allows(self.mode_view(), *connection_type) && is_local_only_error(e),
            },
    {
        match self.is_connection_type_allowed(connection_type) {
            Ok(_) => Ok(()),
            Err(e) => Err(e),
        }
    }
}

} // verus!

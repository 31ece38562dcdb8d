//! Network adapters and connection status.

use vstd::prelude::*;

verus! {

/// A network adapter.
#[derive(Clone, Debug)]
pub struct NetworkAdapter {
    pub name: String,
    pub description: String,
    pub status: String,
}

/// Whether the machine is connected, and through how many adapters.
#[derive(Clone, Debug)]
pub struct ConnectionStatus {
    pub connected: bool,
    pub connection_type: String,
    pub adapter_count: usize,
}

/// Whether some adapter of `adapters` is up.
pub open spec fn some_adapter_up(adapters: Seq<NetworkAdapter>) -> bool {
    exists|i: int| 0 <= i < adapters.len() && (#[trigger] adapters[i]).status@ == "Up"@
}

/// Windows networking manager.
pub struct WindowsNetworking;

impl WindowsNetworking {
    /// A networking manager.
    pub fn new() -> (r: Self) {
        Self
    }

    /// The connection status given the adapters found: connected when some
    /// adapter is up ("Ethernet/WiFi"), otherwise not ("None").
    pub fn connection_status_from(&self, adapters: &Vec<NetworkAdapter>) -> (r: ConnectionStatus)
        ensures
            r.connected == some_adapter_up(adapters@),
            r.connection_type@ == if r.connected { "Ethernet/WiFi"@ } else { "None"@ },
            r.adapter_count == adapters@.len(),
    {
        let up = String::from_str("Up");
        let mut has_active = false;
        let mut i: usize = 0;
        while i < adapters.len()
            invariant
                i <= adapters@.len(),
                up@ == "Up"@,
                has_active == exists|j: int| 0 <= j < i && (#[trigger] adapters@[j]).status@ == "Up"@,
            decreases adapters@.len() - i,
        {
            if adapters[i].status == up {
                has_active = true;
            }
            i = i + 1;
        }
        let connection_type = if has_active {
            String::from_str("Ethernet/WiFi")
        } else {
            String::from_str("None")
        };
        ConnectionStatus { connected: has_active, connection_type, adapter_count: adapters.len() }
    }
}

impl Default for WindowsNetworking {
    fn default() -> (r: Self) {
        Self::new()
    }
}

} // verus!

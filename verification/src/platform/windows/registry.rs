//! The application's place in the Windows registry.

use vstd::prelude::*;

verus! {

/// Windows registry manager: where the application keeps its settings.
pub struct RegistryManager {
    pub app_key_path: String,
}

impl RegistryManager {
    /// A manager for the key `Software\Kizuna` of the current user.
    pub fn new() -> (r: Self)
        ensures
            r.app_key_path@ == "Software\\Kizuna"@,
    {
        Self { app_key_path: String::from_str("Software\\Kizuna") }
    }
}

} // verus!

//! What the system reports about itself.

use vstd::prelude::*;

verus! {

/// System information.
#[derive(Clone, Debug)]
pub struct SystemInfo {
    pub version: String,
    pub computer_name: String,
    pub defender_enabled: bool,
}

} // verus!

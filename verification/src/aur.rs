//! The reply of the AUR's RPC interface, as the library holds it.
use vstd::prelude::*;

verus! {

/// A package of an AUR reply, by its name.
#[allow(non_snake_case)]
#[derive(Debug)]
pub struct AurItem {
    pub Name: String,
}

/// A reply of the AUR's RPC interface.
#[derive(Debug)]
pub struct AurInfo {
    pub resultcount: u32,
    pub results: Vec<AurItem>,
    /// The reply's `type` (as "search", "multiinfo" or "error").
    pub reply_type: String,
    pub version: u32,
}

} // verus!

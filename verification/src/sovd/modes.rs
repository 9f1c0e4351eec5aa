//! SOVD data of the security access mode of an ECU.
use vstd::prelude::*;

verus! {

/// The seed an ECU sends for a security access.
#[derive(Debug, Clone)]
pub struct SovdSeed {
    pub request_seed: String,
}

/// The key a client sends for a security access.
#[derive(Debug, Clone)]
pub struct ModeKey {
    pub send_key: String,
}

} // verus!

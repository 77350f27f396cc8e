//! The operating system's cryptographically secure random number generator,
//! as a value that can be handed to key generation.
use vstd::prelude::*;

verus! {

/// Handle for the operating system's random number generator.
#[derive(Debug, Clone, Copy)]
pub struct CryptoOsRng;

impl CryptoOsRng {
    /// The handle.
    pub fn new() -> (r: Self) {
        CryptoOsRng
    }
}

impl Default for CryptoOsRng {
    fn default() -> (r: Self) {
        CryptoOsRng
    }
}

} // verus!

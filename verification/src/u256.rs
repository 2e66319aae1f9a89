//! A 256-bit challenge code, held as four 64-bit little-endian limbs.
//!
//! Challenge codes are opaque tokens: the core only ever compares them for
//! equality, so the limbs carry no arithmetic.

use vstd::prelude::*;

verus! {

/// A 256-bit unsigned integer, `w0` least significant.
#[derive(Clone, Copy, Debug, PartialEq, Eq, Structural)]
pub struct U256 {
    pub w0: u64,
    pub w1: u64,
    pub w2: u64,
    pub w3: u64,
}

impl U256 {
    /// The code whose value is `x` (upper limbs zero).
    pub fn from_u64(x: u64) -> (r: U256)
        ensures
            r == (U256 { w0: x, w1: 0, w2: 0, w3: 0 }),
    {
        U256 { w0: x, w1: 0, w2: 0, w3: 0 }
    }
}

} // verus!

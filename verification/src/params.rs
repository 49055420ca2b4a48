//! Fixed parameters of the ring.
use vstd::prelude::*;

verus! {

/// Number of coefficients of a ring element.
pub const N: usize = 256;

/// The prime modulus.
pub const Q: i16 = 3329;

/// Inverse of `Q` modulo 2^16.
pub const QINV: i32 = 62209;

} // verus!
